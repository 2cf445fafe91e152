//! The decisions of a multi-part upload, one event at a time: a part with a
//! file name begins, a chunk of its body arrives, the part ends, the request
//! ends. The caller performs the file writes and removals these decisions ask
//! for.
use vstd::prelude::*;
use crate::FileInfo;
use crate::catalog::{describes, file_record};
use crate::namer::{is_token, make_storage_id, new_storage_id, sanitize_filename, sanitized, storage_id_of, TOKEN_LEN};
use crate::text::{dec_digits, push_decimal, push_str};

verus! {

/// The largest accepted file, in bytes: 16384 MiB.
pub const MAX_FILE_SIZE: u64 = 17179869184;

/// The most files one request may carry.
pub const MAX_FILE_COUNT: u64 = 10;

/// Limits that an upload request is held to.
#[derive(Clone, Copy, Debug, PartialEq, Eq, Structural)]
pub struct UploadLimits {
    pub max_file_size: u64,
    pub max_file_count: u64,
}

impl UploadLimits {
    /// The limits the service runs with.
    pub fn standard() -> (r: UploadLimits)
        ensures
            r.max_file_size == MAX_FILE_SIZE,
            r.max_file_count == MAX_FILE_COUNT,
    {
        UploadLimits { max_file_size: MAX_FILE_SIZE, max_file_count: MAX_FILE_COUNT }
    }
}

/// Why an upload request fails.
#[derive(Clone, Copy, Debug, PartialEq, Eq, Structural)]
pub enum UploadError {
    /// A part with a file name came after the allowed number of files.
    TooManyFiles,
    /// A file's body grew past the largest accepted size.
    FileTooLarge,
    /// The request carried no part with a file name.
    NoFiles,
}

/// The text of an upload failure.
pub open spec fn error_text(e: UploadError, limits: UploadLimits) -> Seq<char> {
    match e {
        UploadError::TooManyFiles => "Maximum "@ + dec_digits(limits.max_file_count as nat)
            + " files allowed"@,
        UploadError::FileTooLarge => "File too large. Maximum size is "@ + dec_digits(
            (limits.max_file_size / 1024 / 1024) as nat,
        ) + " MB"@,
        UploadError::NoFiles => "No files were uploaded"@,
    }
}

/// The text of a successful upload of `n` files.
pub open spec fn success_text(n: nat) -> Seq<char> {
    "Successfully uploaded "@ + dec_digits(n) + " file(s)"@
}

impl UploadError {
    /// The message the client is shown.
    pub fn message(&self, limits: UploadLimits) -> (r: String)
        ensures
            r@ == error_text(*self, limits),
    {
        let mut s = String::new();
        match self {
            UploadError::TooManyFiles => {
                push_str(&mut s, "Maximum ");
                push_decimal(&mut s, limits.max_file_count);
                push_str(&mut s, " files allowed");
            },
            UploadError::FileTooLarge => {
                push_str(&mut s, "File too large. Maximum size is ");
                push_decimal(&mut s, limits.max_file_size / 1024 / 1024);
                push_str(&mut s, " MB");
            },
            UploadError::NoFiles => {
                push_str(&mut s, "No files were uploaded");
            },
        }
        assert(s@ =~= error_text(*self, limits));
        s
    }
}

/// The message of a successful upload of `n` files.
pub fn success_message(n: u64) -> (r: String)
    ensures
        r@ == success_text(n as nat),
{
    let mut s = String::new();
    push_str(&mut s, "Successfully uploaded ");
    push_decimal(&mut s, n);
    push_str(&mut s, " file(s)");
    assert(s@ =~= success_text(n as nat));
    s
}

/// A file being received: its safe name, its storage identifier and the
/// bytes written so far.
#[derive(Debug)]
pub struct PartInProgress {
    pub name: String,
    pub storage_id: String,
    pub size: u64,
}

/// The state of one upload request.
#[derive(Debug)]
pub struct UploadSession {
    pub limits: UploadLimits,
    /// Files fully received so far, in order of arrival.
    pub accepted: Vec<FileInfo>,
    /// The file being received, if any.
    pub current: Option<PartInProgress>,
}

impl UploadSession {
    /// No more files are accepted than the limit allows, and the file being
    /// received is within the size limit and has room among them.
    pub open spec fn wf(&self) -> bool {
        &&& self.accepted@.len() <= self.limits.max_file_count
        &&& self.current matches Some(p) ==> p.size <= self.limits.max_file_size
            && self.accepted@.len() < self.limits.max_file_count
    }

    /// The file being received.
    pub open spec fn part(&self) -> PartInProgress {
        self.current->Some_0
    }

    /// A request with nothing received yet.
    pub fn new(limits: UploadLimits) -> (r: UploadSession)
        ensures
            r.wf(),
            r.limits == limits,
            r.accepted@.len() == 0,
            r.current is None,
    {
        UploadSession { limits, accepted: Vec::new(), current: None }
    }

    fn start_part(&mut self, name: String, storage_id: String) -> (r: Result<String, UploadError>)
        requires
            old(self).wf(),
            old(self).current is None,
        ensures
            final(self).wf(),
            final(self).limits == old(self).limits,
            final(self).accepted@ == old(self).accepted@,
            old(self).accepted@.len() >= old(self).limits.max_file_count ==> r == Err::<
                String,
                UploadError,
            >(UploadError::TooManyFiles) && final(self).current is None,
            old(self).accepted@.len() < old(self).limits.max_file_count ==> r is Ok && r->Ok_0@
                == storage_id@ && final(self).current is Some && final(self).part().name@ == name@
                && final(self).part().storage_id@ == storage_id@ && final(self).part().size == 0,
    {
        if self.accepted.len() as u64 >= self.limits.max_file_count {
            return Err(UploadError::TooManyFiles);
        }
        let id = String::from_str(storage_id.as_str());
        self.current = Some(PartInProgress { name, storage_id, size: 0 });
        Ok(id)
    }

    /// A part with file name `filename` begins, to be stored under the given
    /// token. Past the file limit the request fails; otherwise the part is
    /// to be written to the identifier returned.
    pub fn begin_part_with_token(&mut self, filename: &str, token: &str) -> (r: Result<String, UploadError>)
        requires
            old(self).wf(),
            old(self).current is None,
        ensures
            final(self).wf(),
            final(self).limits == old(self).limits,
            final(self).accepted@ == old(self).accepted@,
            old(self).accepted@.len() >= old(self).limits.max_file_count ==> r == Err::<
                String,
                UploadError,
            >(UploadError::TooManyFiles) && final(self).current is None,
            old(self).accepted@.len() < old(self).limits.max_file_count ==> r is Ok && r->Ok_0@
                == storage_id_of(token@, sanitized(filename@)) && final(self).current is Some
                && final(self).part().name@ == sanitized(filename@) && final(self).part().storage_id@
                == r->Ok_0@ && final(self).part().size == 0,
    {
        let name = sanitize_filename(filename);
        let id = make_storage_id(token, name.as_str());
        self.start_part(name, id)
    }

    /// A part with file name `filename` begins, under a fresh random token.
    /// Past the file limit the request fails; otherwise the part is to be
    /// written to the identifier returned.
    pub fn begin_part(&mut self, filename: &str) -> (r: Result<String, UploadError>)
        requires
            old(self).wf(),
            old(self).current is None,
        ensures
            final(self).wf(),
            final(self).limits == old(self).limits,
            final(self).accepted@ == old(self).accepted@,
            old(self).accepted@.len() >= old(self).limits.max_file_count ==> r == Err::<
                String,
                UploadError,
            >(UploadError::TooManyFiles) && final(self).current is None,
            old(self).accepted@.len() < old(self).limits.max_file_count ==> r is Ok && is_token(
                r->Ok_0@.subrange(0, TOKEN_LEN as int),
            ) && r->Ok_0@ == storage_id_of(r->Ok_0@.subrange(0, TOKEN_LEN as int), sanitized(filename@))
                && final(self).current is Some && final(self).part().name@ == sanitized(filename@)
                && final(self).part().storage_id@ == r->Ok_0@ && final(self).part().size == 0,
    {
        let name = sanitize_filename(filename);
        let id = new_storage_id(name.as_str());
        self.start_part(name, id)
    }

    /// `len` more bytes of the current part arrived. Past the size limit the
    /// part is dropped and the request fails: the partial file is to be
    /// removed. Otherwise the bytes are to be written.
    pub fn add_chunk(&mut self, len: u64) -> (r: Result<(), UploadError>)
        requires
            old(self).wf(),
            old(self).current is Some,
        ensures
            final(self).wf(),
            final(self).limits == old(self).limits,
            final(self).accepted@ == old(self).accepted@,
            ({
                let p = old(self).current->Some_0;
                if p.size + len > old(self).limits.max_file_size {
                    r == Err::<(), UploadError>(UploadError::FileTooLarge) && final(self).current is None
                } else {
                    r is Ok && final(self).current is Some && final(self).part().name == p.name
                        && final(self).part().storage_id == p.storage_id && final(self).part().size
                        == p.size + len
                }
            }),
    {
        let p = self.current.take().unwrap();
        if len > self.limits.max_file_size - p.size {
            return Err(UploadError::FileTooLarge);
        }
        self.current = Some(PartInProgress { name: p.name, storage_id: p.storage_id, size: p.size + len });
        Ok(())
    }

    /// The current part ended: its file is accepted and its record kept.
    pub fn end_part(&mut self)
        requires
            old(self).wf(),
            old(self).current is Some,
        ensures
            final(self).wf(),
            final(self).limits == old(self).limits,
            final(self).current is None,
            final(self).accepted@.len() == old(self).accepted@.len() + 1,
            final(self).accepted@.drop_last() == old(self).accepted@,
            describes(
                final(self).accepted@.last(),
                old(self).current->Some_0.name@,
                old(self).current->Some_0.storage_id@,
                old(self).current->Some_0.size,
            ),
    {
        let p = self.current.take().unwrap();
        let record = file_record(p.name, p.storage_id, p.size);
        self.accepted.push(record);
        assert(self.accepted@.drop_last() =~= old(self).accepted@);
    }

    /// The request ended: the files received, or a failure when there was none.
    pub fn finish(self) -> (r: Result<Vec<FileInfo>, UploadError>)
        requires
            self.wf(),
        ensures
            self.accepted@.len() == 0 ==> r == Err::<Vec<FileInfo>, UploadError>(UploadError::NoFiles),
            self.accepted@.len() > 0 ==> r is Ok && r->Ok_0@ == self.accepted@,
    {
        if self.accepted.len() == 0 {
            Err(UploadError::NoFiles)
        } else {
            Ok(self.accepted)
        }
    }
}

} // verus!

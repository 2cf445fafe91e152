//! Bounded text previews of stored files.
use vstd::prelude::*;
use vstd::string::StringSliceAdditionalSpecFns;
use vstd::utf8::{
    decode_utf8, encode_utf8, encode_utf8_decode_utf8, encode_utf8_valid_utf8, is_ascii_chars,
    is_ascii_chars_encode_utf8, is_ascii_chars_nat_bound, is_char_boundary,
    is_char_boundary_iff_not_is_continuation_byte, is_continuation_byte,
};
use crate::classify::{category_of_name, classify, Category};
use crate::namer::{display_name, display_name_of};
use crate::text::{push_char, push_str};

verus! {

/// Bytes of a file shown in full by a preview before it is cut: 10 KiB.
pub const PREVIEW_LIMIT: usize = 10240;

/// Why a preview fails.
#[derive(Clone, Copy, Debug, PartialEq, Eq, Structural)]
pub enum PreviewError {
    /// The file is neither text nor source code.
    NotPreviewable,
    /// The file could not be read as UTF-8 text.
    ReadError,
}

/// The text of a preview failure.
pub open spec fn preview_error_text(e: PreviewError) -> Seq<char> {
    match e {
        PreviewError::NotPreviewable => "File cannot be previewed as text"@,
        PreviewError::ReadError => "Failed to read file"@,
    }
}

impl PreviewError {
    /// The message the client is shown.
    pub fn message(&self) -> (r: String)
        ensures
            r@ == preview_error_text(*self),
    {
        match self {
            PreviewError::NotPreviewable => String::from_str("File cannot be previewed as text"),
            PreviewError::ReadError => String::from_str("Failed to read file"),
        }
    }
}

/// A stored file can be previewed when the category of its user-facing
/// name is text or source code.
pub open spec fn preview_allowed(storage_id: Seq<char>) -> bool {
    category_of_name(display_name(storage_id)).is_textual()
}

/// What follows a cut preview.
pub open spec fn truncation_marker(name: Seq<char>) -> Seq<char> {
    "...\n\n[Content truncated - showing first 10KB of "@ + name + seq![']']
}

/// The largest character boundary of `b` at or below `k`.
pub open spec fn boundary_at_or_below(b: Seq<u8>, k: int) -> int
    decreases k,
{
    if k <= 0 || is_char_boundary(b, k) {
        k
    } else {
        boundary_at_or_below(b, k - 1)
    }
}

/// The preview of a file whose text is `content` and whose user-facing name
/// is `name`: the whole text when it fits in the limit; otherwise the
/// characters in its first `PREVIEW_LIMIT` bytes, then a marker naming the
/// file.
pub open spec fn preview_text(name: Seq<char>, content: Seq<char>, content_bytes: Seq<u8>) -> Seq<char> {
    if content_bytes.len() <= PREVIEW_LIMIT {
        content
    } else {
        decode_utf8(content_bytes.subrange(0, boundary_at_or_below(content_bytes, PREVIEW_LIMIT as int)))
            + truncation_marker(name)
    }
}

/// Decides whether the stored file `storage_id` can be previewed, and gives
/// its user-facing name when it can.
pub fn preview_gate(storage_id: &str) -> (r: Result<String, PreviewError>)
    ensures
        preview_allowed(storage_id@) ==> r is Ok && r->Ok_0@ == display_name(storage_id@),
        !preview_allowed(storage_id@) ==> r == Err::<String, PreviewError>(PreviewError::NotPreviewable),
{
    let name = display_name_of(storage_id);
    let category = classify(name.as_str());
    if category.textual() {
        Ok(name)
    } else {
        Err(PreviewError::NotPreviewable)
    }
}

/// The preview of a file with user-facing name `name` and text `content`.
pub fn preview_content(name: &str, content: &str) -> (r: String)
    ensures
        r@ == preview_text(name@, content@, content.spec_bytes()),
{
    let n = content.as_bytes().len();
    if n <= PREVIEW_LIMIT {
        return String::from_str(content);
    }
    let ghost b = content.spec_bytes();
    proof {
        encode_utf8_valid_utf8(content@);
        assert(is_char_boundary(b, 0));
    }
    let mut k: usize = PREVIEW_LIMIT;
    while !content.is_char_boundary(k)
        invariant
            b == content.spec_bytes(),
            is_char_boundary(b, 0),
            k <= PREVIEW_LIMIT,
            boundary_at_or_below(b, k as int) == boundary_at_or_below(b, PREVIEW_LIMIT as int),
        decreases k,
    {
        k -= 1;
    }
    let (head, _rest) = content.split_at(k);
    proof {
        encode_utf8_decode_utf8(head@);
        assert(head.spec_bytes() =~= b.subrange(0, k as int));
    }
    let mut s = String::from_str(head);
    push_str(&mut s, "...\n\n[Content truncated - showing first 10KB of ");
    push_str(&mut s, name);
    push_char(&mut s, ']');
    assert(s@ =~= preview_text(name@, content@, b));
    s
}

/// An archive is never previewed, whatever it holds.
pub proof fn lemma_archive_not_previewable(storage_id: Seq<char>)
    requires
        category_of_name(display_name(storage_id)) == Category::Archive,
    ensures
        !preview_allowed(storage_id),
{
}

/// Plain ASCII text longer than the limit is cut after exactly
/// `PREVIEW_LIMIT` bytes: its first `PREVIEW_LIMIT` characters, then the
/// marker.
pub proof fn lemma_ascii_preview_cut(name: Seq<char>, content: Seq<char>)
    requires
        is_ascii_chars(content),
        content.len() > PREVIEW_LIMIT,
    ensures
        preview_text(name, content, encode_utf8(content)) == content.subrange(0, PREVIEW_LIMIT as int)
            + truncation_marker(name),
{
    let b = encode_utf8(content);
    let limit = PREVIEW_LIMIT as int;
    is_ascii_chars_encode_utf8(content);
    is_ascii_chars_nat_bound(content);
    encode_utf8_valid_utf8(content);
    assert(b[limit] == content[limit] as u8);
    assert(!is_continuation_byte(b[limit]));
    is_char_boundary_iff_not_is_continuation_byte(b, limit);
    assert(boundary_at_or_below(b, limit) == limit);
    let head = content.subrange(0, limit);
    assert(is_ascii_chars(head));
    is_ascii_chars_encode_utf8(head);
    assert(b.subrange(0, limit) =~= encode_utf8(head));
    encode_utf8_decode_utf8(head);
}

} // verus!

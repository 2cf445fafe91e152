//! Records of stored files, the order of a listing, and deletion outcomes.
use vstd::prelude::*;
use crate::FileInfo;
use crate::classify::{category_of_name, get_file_type_and_preview};
use crate::namer::{display_name, display_name_of};
use crate::text::push_str;

verus! {

broadcast use {vstd::seq_lib::group_to_multiset_ensures, vstd::multiset::group_multiset_axioms};

/// `f` is the record of a file with user-facing name `name`, identifier `id`
/// and `size` bytes.
pub open spec fn describes(f: FileInfo, name: Seq<char>, id: Seq<char>, size: u64) -> bool {
    &&& f.name@ == name
    &&& f.path@ == id
    &&& f.size == size
    &&& f.file_type@ == category_of_name(name).label()
    &&& f.can_preview == category_of_name(name).previewable_spec()
}

/// `f` is the record that a listing gives for the stored file `id`.
pub open spec fn lists(f: FileInfo, id: Seq<char>, size: u64) -> bool {
    describes(f, display_name(id), id, size)
}

/// Lexicographic order of names, character by character.
pub open spec fn name_le(a: Seq<char>, b: Seq<char>) -> bool
    decreases a.len(),
{
    if a.len() == 0 {
        true
    } else if b.len() == 0 {
        false
    } else if (a[0] as u32) != (b[0] as u32) {
        (a[0] as u32) < (b[0] as u32)
    } else {
        name_le(a.drop_first(), b.drop_first())
    }
}

/// `f` lists one of the `entries`.
pub open spec fn lists_one_of(f: FileInfo, entries: Seq<(String, u64)>) -> bool {
    exists|j: int| 0 <= j < entries.len() && lists(f, #[trigger] entries[j].0@, entries[j].1)
}

/// The entry `e` is listed by one of the records of `r`.
pub open spec fn listed_in(e: (String, u64), r: Seq<FileInfo>) -> bool {
    exists|i: int| 0 <= i < r.len() && lists(#[trigger] r[i], e.0@, e.1)
}

/// Every record of `r` lists one of the `entries` (identifier and size), and
/// every entry is listed by one of the records.
pub open spec fn listing_of(r: Seq<FileInfo>, entries: Seq<(String, u64)>) -> bool {
    &&& forall|i: int| 0 <= i < r.len() ==> lists_one_of(#[trigger] r[i], entries)
    &&& forall|j: int| 0 <= j < entries.len() ==> listed_in(#[trigger] entries[j], r)
}

/// Records in ascending order of their names.
pub open spec fn sorted_by_name(s: Seq<FileInfo>) -> bool {
    forall|i: int, j: int| 0 <= i < j < s.len() ==> name_le(#[trigger] s[i].name@, #[trigger] s[j].name@)
}

pub proof fn lemma_name_le_total(a: Seq<char>, b: Seq<char>)
    ensures
        name_le(a, b) || name_le(b, a),
    decreases a.len(),
{
    if a.len() > 0 && b.len() > 0 && (a[0] as u32) == (b[0] as u32) {
        lemma_name_le_total(a.drop_first(), b.drop_first());
    }
}

pub proof fn lemma_name_le_transitive(a: Seq<char>, b: Seq<char>, c: Seq<char>)
    requires
        name_le(a, b),
        name_le(b, c),
    ensures
        name_le(a, c),
    decreases a.len(),
{
    if a.len() > 0 && b.len() > 0 && c.len() > 0 && (a[0] as u32) == (b[0] as u32) && (b[0] as u32)
        == (c[0] as u32) {
        lemma_name_le_transitive(a.drop_first(), b.drop_first(), c.drop_first());
    }
}

/// Compares two names in the order of a listing.
pub fn name_less_eq(a: &str, b: &str) -> (r: bool)
    ensures
        r == name_le(a@, b@),
{
    let n = a.unicode_len();
    let m = b.unicode_len();
    let mut i: usize = 0;
    assert(a@.subrange(0, n as int) =~= a@);
    assert(b@.subrange(0, m as int) =~= b@);
    while i < n && i < m && (a.get_char(i) as u32) == (b.get_char(i) as u32)
        invariant
            n == a@.len(),
            m == b@.len(),
            i <= n,
            i <= m,
            name_le(a@, b@) == name_le(a@.subrange(i as int, n as int), b@.subrange(i as int, m as int)),
        decreases n - i,
    {
        proof {
            let sa = a@.subrange(i as int, n as int);
            let sb = b@.subrange(i as int, m as int);
            assert(sa.drop_first() =~= a@.subrange(i + 1, n as int));
            assert(sb.drop_first() =~= b@.subrange(i + 1, m as int));
        }
        i += 1;
    }
    let sa = Ghost(a@.subrange(i as int, n as int));
    let sb = Ghost(b@.subrange(i as int, m as int));
    if i == n {
        assert(sa@.len() == 0);
        true
    } else if i == m {
        assert(sb@.len() == 0);
        false
    } else {
        assert(sa@[0] == a@[i as int]);
        assert(sb@[0] == b@[i as int]);
        (a.get_char(i) as u32) < (b.get_char(i) as u32)
    }
}

/// The record of a file with a given user-facing name, identifier and size.
pub fn file_record(name: String, path: String, size: u64) -> (r: FileInfo)
    ensures
        describes(r, name@, path@, size),
{
    let (file_type, can_preview) = get_file_type_and_preview(name.as_str());
    FileInfo { name, path, size, file_type, can_preview }
}

/// The record a listing gives for the stored file `storage_id`.
pub fn listing_record(storage_id: String, size: u64) -> (r: FileInfo)
    ensures
        lists(r, storage_id@, size),
{
    let name = display_name_of(storage_id.as_str());
    file_record(name, storage_id, size)
}

proof fn lemma_reordered_listing(records: Seq<FileInfo>, r: Seq<FileInfo>, entries: Seq<(String, u64)>)
    requires
        records.len() == entries.len(),
        forall|k: int| 0 <= k < records.len() ==> lists(#[trigger] records[k], entries[k].0@, entries[k].1),
        r.to_multiset() == records.to_multiset(),
    ensures
        r.len() == entries.len(),
        listing_of(r, entries),
{
    assert(r.len() == r.to_multiset().len());
    assert(records.len() == records.to_multiset().len());
    assert forall|i: int| 0 <= i < r.len() implies lists_one_of(#[trigger] r[i], entries) by {
        assert(r.to_multiset().count(r[i]) > 0);
        assert(records.to_multiset().count(r[i]) > 0);
        let j = choose|j: int| 0 <= j < records.len() && records[j] == r[i];
        assert(lists(records[j], entries[j].0@, entries[j].1));
    }
    assert forall|j: int| 0 <= j < entries.len() implies listed_in(#[trigger] entries[j], r) by {
        assert(records.to_multiset().count(records[j]) > 0);
        assert(r.to_multiset().count(records[j]) > 0);
        let i = choose|i: int| 0 <= i < r.len() && r[i] == records[j];
        assert(lists(r[i], entries[j].0@, entries[j].1));
    }
}

/// Puts records in ascending order of their names.
pub fn sort_by_name(v: Vec<FileInfo>) -> (r: Vec<FileInfo>)
    ensures
        sorted_by_name(r@),
        r@.to_multiset() == v@.to_multiset(),
{
    let mut out: Vec<FileInfo> = Vec::new();
    let mut rest = v;
    let ghost orig = rest@;
    while rest.len() > 0
        invariant
            sorted_by_name(out@),
            out@.to_multiset().add(rest@.to_multiset()) == orig.to_multiset(),
        decreases rest.len(),
    {
        let ghost rest_before = rest@;
        let x = rest.pop().unwrap();
        assert(rest_before =~= rest@.push(x));
        let mut p: usize = 0;
        while p < out.len() && name_less_eq(out[p].name.as_str(), x.name.as_str())
            invariant
                p <= out.len(),
                forall|k: int| 0 <= k < p ==> name_le(#[trigger] out@[k].name@, x.name@),
            decreases out.len() - p,
        {
            p += 1;
        }
        proof {
            if p < out.len() {
                lemma_name_le_total(out@[p as int].name@, x.name@);
            }
        }
        let ghost before = out@;
        out.insert(p, x);
        proof {
            assert forall|i: int, j: int| 0 <= i < j < out@.len() implies name_le(
                #[trigger] out@[i].name@,
                #[trigger] out@[j].name@,
            ) by {
                if j < p {
                    assert(out@[i] == before[i] && out@[j] == before[j]);
                } else if j == p {
                    assert(out@[i] == before[i]);
                } else if i > p {
                    assert(out@[i] == before[i - 1] && out@[j] == before[j - 1]);
                } else if i == p {
                    assert(out@[j] == before[j - 1]);
                    assert(out@[p as int + 1] == before[p as int]);
                    if j - 1 > p {
                        assert(name_le(before[p as int].name@, before[j - 1].name@));
                        lemma_name_le_transitive(x.name@, before[p as int].name@, before[j - 1].name@);
                    }
                } else {
                    assert(out@[i] == before[i] && out@[j] == before[j - 1]);
                }
            }
            assert(out@ =~= before.insert(p as int, x));
            assert(out@.to_multiset().add(rest@.to_multiset()) =~= before.to_multiset().add(
                rest@.push(x).to_multiset(),
            ));
        }
    }
    out
}

/// The listing of a storage directory: one record for each regular file,
/// given as its identifier and size, in ascending order of user-facing names.
pub fn catalog_listing(entries: Vec<(String, u64)>) -> (r: Vec<FileInfo>)
    ensures
        sorted_by_name(r@),
        r@.len() == entries@.len(),
        listing_of(r@, entries@),
{
    let mut records: Vec<FileInfo> = Vec::new();
    let n = entries.len();
    let mut i: usize = 0;
    while i < n
        invariant
            n == entries@.len(),
            i <= n,
            records@.len() == i,
            forall|k: int| 0 <= k < i ==> lists(#[trigger] records@[k], entries@[k].0@, entries@[k].1),
        decreases n - i,
    {
        let (id, size) = (entries[i].0.clone(), entries[i].1);
        records.push(listing_record(id, size));
        i += 1;
    }
    let sorted = sort_by_name(records);
    proof {
        lemma_reordered_listing(records@, sorted@, entries@);
    }
    sorted
}

/// The answer to a deletion: success when the file was removed, not found
/// otherwise.
pub fn delete_response(removed: bool) -> (r: crate::ApiResponse)
    ensures
        r.success == removed,
        r.message@ == (if removed { "File deleted successfully"@ } else { "File not found"@ }),
{
    let mut message = String::new();
    if removed {
        push_str(&mut message, "File deleted successfully");
    } else {
        push_str(&mut message, "File not found");
    }
    assert(message@ =~= (if removed { "File deleted successfully"@ } else { "File not found"@ }));
    crate::ApiResponse { success: removed, message }
}

} // verus!

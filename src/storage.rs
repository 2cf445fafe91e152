//! Storage accounting: totals over the stored files, the host disk's
//! capacity, and human-readable byte counts.
use vstd::prelude::*;
use vstd::arithmetic::div_mod::{lemma_fundamental_div_mod, lemma_fundamental_div_mod_converse};
use crate::text::{dec_digits, digit, digit_char, push_char, push_decimal, push_str};

verus! {

/// The soft quota that usage is measured against: 1 TiB.
pub const MAX_STORAGE_SIZE: u64 = 1099511627776;

/// Free bytes reported when the disk cannot be probed: 250 GiB.
pub const FALLBACK_DISK_FREE: u64 = 268435456000;

/// Total bytes reported when the disk cannot be probed: 500 GiB.
pub const FALLBACK_DISK_TOTAL: u64 = 536870912000;

/// The unit a byte count is shown in: 0 for bytes, then KB, MB and GB.
pub open spec fn unit_index(bytes: nat) -> nat {
    if bytes < 1024 {
        0
    } else if bytes < 1048576 {
        1
    } else if bytes < 1073741824 {
        2
    } else {
        3
    }
}

/// Bytes in one of each unit.
pub open spec fn unit_scale(i: nat) -> nat {
    if i == 0 {
        1
    } else if i == 1 {
        1024
    } else if i == 2 {
        1048576
    } else {
        1073741824
    }
}

pub open spec fn unit_label(i: nat) -> Seq<char> {
    if i == 0 {
        "B"@
    } else if i == 1 {
        "KB"@
    } else if i == 2 {
        "MB"@
    } else {
        "GB"@
    }
}

/// `bytes / scale` in tenths, rounded to the nearest tenth, ties to even.
pub open spec fn rounded_tenths(bytes: nat, scale: nat) -> nat
    recommends
        scale > 0,
{
    let q = (bytes * 10) / scale;
    let r = (bytes * 10) % scale;
    if 2 * r > scale || (2 * r == scale && q % 2 == 1) {
        q + 1
    } else {
        q
    }
}

/// A byte count as people read it: whole bytes below 1 KB, otherwise the
/// largest unit up to GB that it reaches, with one decimal.
pub open spec fn format_bytes_text(bytes: nat) -> Seq<char> {
    let i = unit_index(bytes);
    if i == 0 {
        dec_digits(bytes) + " B"@
    } else {
        let t = rounded_tenths(bytes, unit_scale(i));
        dec_digits(t / 10) + seq!['.', digit_char(t % 10), ' '] + unit_label(i)
    }
}

/// Renders a byte count with its unit, such as `512 B` or `1.5 KB`.
pub fn format_bytes(bytes: u64) -> (r: String)
    ensures
        r@ == format_bytes_text(bytes as nat),
{
    let mut s = String::new();
    if bytes < 1024 {
        push_decimal(&mut s, bytes);
        push_str(&mut s, " B");
        assert(s@ =~= format_bytes_text(bytes as nat));
        return s;
    }
    let scale: u64 = if bytes < 1048576 {
        1024
    } else if bytes < 1073741824 {
        1048576
    } else {
        1073741824
    };
    let ghost i = unit_index(bytes as nat);
    assert(scale as nat == unit_scale(i));
    let q0 = bytes / scale;
    let r0 = bytes % scale;
    let t0 = (r0 * 10) / scale;
    let rem = (r0 * 10) % scale;
    assert(q0 * 10 <= u64::MAX) by {
        assert(q0 <= bytes / 1024) by (nonlinear_arith)
            requires
                q0 == bytes / scale,
                scale >= 1024,
        ;
    }
    let q = q0 * 10 + t0;
    proof {
        lemma_fundamental_div_mod((r0 * 10) as int, scale as int);
        lemma_fundamental_div_mod(bytes as int, scale as int);
        assert(bytes * 10 == q * scale + rem) by (nonlinear_arith)
            requires
                bytes == scale * q0 + r0,
                r0 * 10 == scale * t0 + rem,
                q == q0 * 10 + t0,
        ;
        lemma_fundamental_div_mod_converse(bytes * 10, scale as int, q as int, rem as int);
    }
    let t = if 2 * rem > scale || (2 * rem == scale && q % 2 == 1) {
        q + 1
    } else {
        q
    };
    assert(t == rounded_tenths(bytes as nat, scale as nat));
    push_decimal(&mut s, t / 10);
    push_char(&mut s, '.');
    push_char(&mut s, digit(t % 10));
    push_char(&mut s, ' ');
    if scale == 1024 {
        push_str(&mut s, "KB");
    } else if scale == 1048576 {
        push_str(&mut s, "MB");
    } else {
        push_str(&mut s, "GB");
    }
    assert(s@ =~= format_bytes_text(bytes as nat));
    s
}

/// The sum of a sequence of file sizes.
pub open spec fn total_size(sizes: Seq<u64>) -> nat
    decreases sizes.len(),
{
    if sizes.len() == 0 {
        0
    } else {
        total_size(sizes.drop_last()) + sizes.last() as nat
    }
}

/// A sum of sizes held in 64 bits: the largest such value when it does not fit.
pub open spec fn capped_total(sizes: Seq<u64>) -> u64 {
    if total_size(sizes) > u64::MAX {
        u64::MAX
    } else {
        total_size(sizes) as u64
    }
}

/// The usage statistics of the storage directory and its disk, all but the
/// percentages, which the caller derives from these counts.
#[derive(Debug)]
pub struct StorageSummary {
    /// Bytes held by the stored files.
    pub used_bytes: u64,
    /// How many files are stored.
    pub total_files: u64,
    pub formatted_used: String,
    /// The soft quota in MiB.
    pub max_size_mb: u64,
    pub disk_free_bytes: u64,
    pub disk_total_bytes: u64,
    /// Bytes in use on the disk: total less free, never below zero.
    pub disk_used_bytes: u64,
    pub formatted_disk_free: String,
    pub formatted_disk_total: String,
}

/// The sizes of the stored files added up; the largest 64-bit value stands
/// for a sum that does not fit.
pub fn storage_total(sizes: &Vec<u64>) -> (r: u64)
    ensures
        r == capped_total(sizes@),
{
    let mut total: u64 = 0;
    let mut i: usize = 0;
    while i < sizes.len()
        invariant
            i <= sizes@.len(),
            total == capped_total(sizes@.subrange(0, i as int)),
        decreases sizes@.len() - i,
    {
        proof {
            let pre = sizes@.subrange(0, i as int + 1);
            assert(pre.drop_last() =~= sizes@.subrange(0, i as int));
        }
        total = total.saturating_add(sizes[i]);
        i += 1;
    }
    assert(sizes@.subrange(0, i as int) =~= sizes@);
    total
}

/// The host disk's free and total bytes: what the probe found, or the
/// fallback figures when it found nothing.
pub fn disk_space_or_fallback(probed: Option<(u64, u64)>) -> (r: (u64, u64))
    ensures
        probed matches Some(p) ==> r == p,
        probed is None ==> r == (FALLBACK_DISK_FREE, FALLBACK_DISK_TOTAL),
{
    match probed {
        Some(p) => p,
        None => (FALLBACK_DISK_FREE, FALLBACK_DISK_TOTAL),
    }
}

/// The usage statistics for stored files of the given sizes on a disk with
/// the given free and total bytes.
pub fn storage_summary(sizes: &Vec<u64>, disk_free: u64, disk_total: u64) -> (r: StorageSummary)
    ensures
        r.used_bytes == capped_total(sizes@),
        r.total_files == sizes@.len(),
        r.formatted_used@ == format_bytes_text(r.used_bytes as nat),
        r.max_size_mb == MAX_STORAGE_SIZE / 1024 / 1024,
        r.disk_free_bytes == disk_free,
        r.disk_total_bytes == disk_total,
        r.disk_used_bytes == (if disk_total >= disk_free { disk_total - disk_free } else { 0 }),
        r.formatted_disk_free@ == format_bytes_text(disk_free as nat),
        r.formatted_disk_total@ == format_bytes_text(disk_total as nat),
{
    let used = storage_total(sizes);
    StorageSummary {
        used_bytes: used,
        total_files: sizes.len() as u64,
        formatted_used: format_bytes(used),
        max_size_mb: MAX_STORAGE_SIZE / 1024 / 1024,
        disk_free_bytes: disk_free,
        disk_total_bytes: disk_total,
        disk_used_bytes: disk_total.saturating_sub(disk_free),
        formatted_disk_free: format_bytes(disk_free),
        formatted_disk_total: format_bytes(disk_total),
    }
}

} // verus!

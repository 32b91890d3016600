//! The values and texts of the dashboard's memory cards, computed from the
//! raw counters the system reports.

use vstd::prelude::*;
use crate::format::{format_gb, gb_text};
use crate::segments::saturating;

verus! {

/// "a / b" with both sides as gigabyte text.
pub open spec fn pair_text(a: u64, b: u64) -> Seq<char> {
    gb_text(a as nat) + seq![' ', '/', ' '] + gb_text(b as nat)
}

/// The page size used for scaling: a reported size of zero counts as one.
pub open spec fn page_size_or_one(page_size: usize) -> nat {
    if page_size == 0 {
        1
    } else {
        page_size as nat
    }
}

/// Pages to bytes, capped at `u64::MAX`.
pub open spec fn pages_to_bytes(pages: usize, page_size: usize) -> u64 {
    saturating(pages * page_size_or_one(page_size))
}

/// Used physical memory: total less available, zero if more is reported
/// available than the total.
pub open spec fn used_physical(total: u64, avail: u64) -> u64 {
    if avail >= total {
        0
    } else {
        (total - avail) as u64
    }
}

/// Physical memory card.
pub struct PhysicalCard {
    pub total: u64,
    pub avail: u64,
    /// Total less available (zero if more is reported available).
    pub used: u64,
    pub used_text: String,
    pub total_text: String,
    pub avail_text: String,
}

/// Commit charge and system cache card.
pub struct CommitCard {
    /// Committed bytes.
    pub commit_total: u64,
    /// Commit limit in bytes.
    pub commit_limit: u64,
    /// System cache in bytes.
    pub cache_bytes: u64,
    /// "committed / limit".
    pub commit_text: String,
    pub cache_text: String,
}

/// Page-file card.
pub struct PageFileCard {
    pub total: u64,
    pub used: u64,
    /// "used / total".
    pub text: String,
}

/// This process's memory card.
pub struct ProcessCard {
    pub working_set: u64,
    pub private_usage: u64,
    pub working_text: String,
    pub private_text: String,
}

/// "a / b" with both sides as gigabyte text.
pub fn pair_gb(a: u64, b: u64) -> (s: String)
    ensures
        s@ == pair_text(a, b),
{
    let mut s = format_gb(a);
    s.append(" / ");
    let right = format_gb(b);
    s.append(right.as_str());
    proof {
        reveal_strlit(" / ");
    }
    assert(s@ =~= pair_text(a, b));
    s
}

/// `a * b` capped at `u64::MAX`.
pub fn saturating_mul(a: u64, b: u64) -> (r: u64)
    ensures
        r == saturating(a * b),
{
    match a.checked_mul(b) {
        Some(x) => x,
        None => u64::MAX,
    }
}

/// The physical memory card from the total and available bytes.
pub fn physical_card(total: u64, avail: u64) -> (c: PhysicalCard)
    ensures
        c.total == total,
        c.avail == avail,
        c.used == used_physical(total, avail),
        c.used_text@ == gb_text(c.used as nat),
        c.total_text@ == gb_text(total as nat),
        c.avail_text@ == gb_text(avail as nat),
{
    let used: u64 = total.saturating_sub(avail);
    PhysicalCard {
        total,
        avail,
        used,
        used_text: format_gb(used),
        total_text: format_gb(total),
        avail_text: format_gb(avail),
    }
}

/// The commit card from the commit total, commit limit and system cache
/// (in pages) and the page size.
pub fn commit_card(commit_pages: usize, limit_pages: usize, cache_pages: usize, page_size: usize) -> (c:
    CommitCard)
    ensures
        c.commit_total == pages_to_bytes(commit_pages, page_size),
        c.commit_limit == pages_to_bytes(limit_pages, page_size),
        c.cache_bytes == pages_to_bytes(cache_pages, page_size),
        c.commit_text@ == pair_text(c.commit_total, c.commit_limit),
        c.cache_text@ == gb_text(c.cache_bytes as nat),
{
    let ps: u64 = if page_size == 0 { 1 } else { page_size as u64 };
    let commit_total: u64 = saturating_mul(commit_pages as u64, ps);
    let commit_limit: u64 = saturating_mul(limit_pages as u64, ps);
    let cache_bytes: u64 = saturating_mul(cache_pages as u64, ps);
    CommitCard {
        commit_total,
        commit_limit,
        cache_bytes,
        commit_text: pair_gb(commit_total, commit_limit),
        cache_text: format_gb(cache_bytes),
    }
}

/// The page-file card from the used and total bytes.
pub fn page_file_card(total: u64, used: u64) -> (c: PageFileCard)
    ensures
        c.total == total,
        c.used == used,
        c.text@ == pair_text(used, total),
{
    PageFileCard { total, used, text: pair_gb(used, total) }
}

/// This process's card from its working set and private bytes.
pub fn process_card(working_set: usize, private_usage: usize) -> (c: ProcessCard)
    ensures
        c.working_set == working_set,
        c.private_usage == private_usage,
        c.working_text@ == gb_text(working_set as nat),
        c.private_text@ == gb_text(private_usage as nat),
{
    let w: u64 = working_set as u64;
    let p: u64 = private_usage as u64;
    ProcessCard { working_set: w, private_usage: p, working_text: format_gb(w), private_text: format_gb(p) }
}

/// Used and available physical memory together make up the total whenever
/// no more is available than the total; used memory never exceeds the total.
pub proof fn lemma_used_and_available_make_total(total: u64, avail: u64)
    ensures
        used_physical(total, avail) <= total,
        avail <= total ==> used_physical(total, avail) + avail == total,
{
}

/// The byte counts of the commit card never fall below the page counts and
/// are exact whenever the product fits in 64 bits.
pub proof fn lemma_pages_to_bytes_exact(pages: usize, page_size: usize)
    ensures
        pages_to_bytes(pages, page_size) >= pages,
        pages * page_size_or_one(page_size) <= u64::MAX ==> pages_to_bytes(pages, page_size) == pages
            * page_size_or_one(page_size),
{
    assert(pages * page_size_or_one(page_size) >= pages) by (nonlinear_arith)
        requires
            page_size_or_one(page_size) >= 1,
    ;
}


/// "a / b" is the gigabyte text of `a` itself, then " / ", then the
/// gigabyte text of `b`, whatever the ratio of `a` to `b`.
pub proof fn lemma_pair_text(a: u64, b: u64)
    ensures
        pair_text(a, b) == gb_text(a as nat) + " / "@ + gb_text(b as nat),
        pair_text(a, b).subrange(0, gb_text(a as nat).len() as int) == gb_text(a as nat),
{
    reveal_strlit(" / ");
    assert(pair_text(a, b) =~= gb_text(a as nat) + " / "@ + gb_text(b as nat));
    assert(pair_text(a, b).subrange(0, gb_text(a as nat).len() as int) =~= gb_text(a as nat));
}

/// Used physical memory is the total less the available memory, and zero
/// when at least the total is available.
pub proof fn lemma_used_physical(total: u64, avail: u64)
    ensures
        avail <= total ==> used_physical(total, avail) as int == total - avail,
        avail >= total ==> used_physical(total, avail) == 0,
{
}

/// Pages become bytes by multiplying with the page size (one when the size
/// is reported as zero), capped at `u64::MAX` when the product does not fit.
pub proof fn lemma_pages_to_bytes(pages: usize, page_size: usize)
    ensures
        page_size == 0 ==> pages_to_bytes(pages, page_size) == pages,
        page_size > 0 && pages * page_size <= 0xFFFF_FFFF_FFFF_FFFF ==> pages_to_bytes(pages, page_size)
            == pages * page_size,
        page_size > 0 && pages * page_size > 0xFFFF_FFFF_FFFF_FFFF ==> pages_to_bytes(pages, page_size)
            == 0xFFFF_FFFF_FFFF_FFFFu64,
{
}

} // verus!

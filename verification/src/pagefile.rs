//! Page-file occupancy: the sizes of all page files, in pages, summed and
//! turned into bytes.

use vstd::prelude::*;

verus! {

/// One page file as enumerated by the system, sizes in pages.
#[derive(Clone, Copy, Debug, PartialEq, Eq)]
pub struct PageFileEntry {
    /// Pages the file can hold.
    pub total_size: u64,
    /// Pages in use.
    pub total_in_use: u64,
}

/// Summed page-file sizes (in pages, or in bytes once scaled).
#[derive(Clone, Copy, Debug, PartialEq, Eq)]
pub struct PageFileInfo {
    pub total: u64,
    pub used: u64,
    pub free: u64,
}

/// Pages all files can hold.
pub open spec fn total_pages(entries: Seq<PageFileEntry>) -> nat
    decreases entries.len(),
{
    if entries.len() == 0 {
        0
    } else {
        total_pages(entries.drop_last()) + entries.last().total_size as nat
    }
}

/// Pages in use over all files.
pub open spec fn used_pages(entries: Seq<PageFileEntry>) -> nat
    decreases entries.len(),
{
    if entries.len() == 0 {
        0
    } else {
        used_pages(entries.drop_last()) + entries.last().total_in_use as nat
    }
}

/// The page size used for scaling: a reported size of zero counts as one.
pub open spec fn effective_page_size(page_size: usize) -> nat {
    if page_size == 0 {
        1
    } else {
        page_size as nat
    }
}

/// Whether the sums and their byte counts fit in 64 bits.
pub open spec fn page_files_fit(entries: Seq<PageFileEntry>, page_size: usize) -> bool {
    &&& total_pages(entries) * effective_page_size(page_size) <= u64::MAX
    &&& used_pages(entries) * effective_page_size(page_size) <= u64::MAX
}

/// Free pages: total minus used, zero when more is used than the total.
pub open spec fn free_pages(total: nat, used: nat) -> nat {
    if used >= total {
        0
    } else {
        (total - used) as nat
    }
}

proof fn lemma_sums_grow(entries: Seq<PageFileEntry>, i: int)
    requires
        0 <= i <= entries.len(),
    ensures
        total_pages(entries.subrange(0, i)) <= total_pages(entries),
        used_pages(entries.subrange(0, i)) <= used_pages(entries),
    decreases entries.len() - i,
{
    if i < entries.len() {
        lemma_sums_grow(entries, i + 1);
        assert(entries.subrange(0, i + 1).drop_last() =~= entries.subrange(0, i));
    } else {
        assert(entries.subrange(0, i) =~= entries);
    }
}

/// Sums the page files' sizes in pages; `free` is the total less the used
/// pages (zero if more is used).
pub fn sum_page_files(entries: &Vec<PageFileEntry>) -> (info: PageFileInfo)
    requires
        total_pages(entries@) <= u64::MAX,
        used_pages(entries@) <= u64::MAX,
    ensures
        info.total == total_pages(entries@),
        info.used == used_pages(entries@),
        info.free == free_pages(info.total as nat, info.used as nat),
{
    let mut total: u64 = 0;
    let mut used: u64 = 0;
    let mut i: usize = 0;
    while i < entries.len()
        invariant
            i <= entries@.len(),
            total == total_pages(entries@.subrange(0, i as int)),
            used == used_pages(entries@.subrange(0, i as int)),
            total_pages(entries@) <= u64::MAX,
            used_pages(entries@) <= u64::MAX,
        decreases entries@.len() - i,
    {
        proof {
            lemma_sums_grow(entries@, i + 1);
            assert(entries@.subrange(0, i + 1).drop_last() =~= entries@.subrange(0, i as int));
        }
        total = total + entries[i].total_size;
        used = used + entries[i].total_in_use;
        i = i + 1;
    }
    assert(entries@.subrange(0, entries@.len() as int) =~= entries@);
    PageFileInfo { total, used, free: total.saturating_sub(used) }
}

/// Whether `page_file_bytes` can be used on these page files: the sums and
/// their byte counts fit in 64 bits.
pub fn page_files_fit_exec(entries: &Vec<PageFileEntry>, page_size: usize) -> (ok: bool)
    ensures
        ok == page_files_fit(entries@, page_size),
{
    let ps: u64 = if page_size == 0 { 1 } else { page_size as u64 };
    let mut total: u64 = 0;
    let mut used: u64 = 0;
    let mut i: usize = 0;
    while i < entries.len()
        invariant
            i <= entries@.len(),
            total == total_pages(entries@.subrange(0, i as int)),
            used == used_pages(entries@.subrange(0, i as int)),
        decreases entries@.len() - i,
    {
        assert(entries@.subrange(0, i + 1).drop_last() =~= entries@.subrange(0, i as int));
        match total.checked_add(entries[i].total_size) {
            Some(t) => total = t,
            None => {
                proof {
                    lemma_sums_grow(entries@, i + 1);
                    lemma_mul_at_least(total_pages(entries@), effective_page_size(page_size));
                }
                return false;
            },
        }
        match used.checked_add(entries[i].total_in_use) {
            Some(u) => used = u,
            None => {
                proof {
                    lemma_sums_grow(entries@, i + 1);
                    lemma_mul_at_least(used_pages(entries@), effective_page_size(page_size));
                }
                return false;
            },
        }
        i = i + 1;
    }
    assert(entries@.subrange(0, entries@.len() as int) =~= entries@);
    total.checked_mul(ps).is_some() && used.checked_mul(ps).is_some()
}

proof fn lemma_mul_at_least(a: nat, b: nat)
    requires
        b >= 1,
    ensures
        a * b >= a,
{
    assert(a * b >= a) by (nonlinear_arith)
        requires
            b >= 1,
    ;
}

/// The page files' total, used and free sizes in bytes: the page sums times
/// the page size (a size of zero counts as one).
pub fn page_file_bytes(entries: &Vec<PageFileEntry>, page_size: usize) -> (bytes: PageFileInfo)
    requires
        page_files_fit(entries@, page_size),
    ensures
        bytes.total == total_pages(entries@) * effective_page_size(page_size),
        bytes.used == used_pages(entries@) * effective_page_size(page_size),
        bytes.free == free_pages(total_pages(entries@), used_pages(entries@)) * effective_page_size(page_size),
{
    let ps: u64 = if page_size == 0 { 1 } else { page_size as u64 };
    proof {
        lemma_mul_at_least(total_pages(entries@), effective_page_size(page_size));
        lemma_mul_at_least(used_pages(entries@), effective_page_size(page_size));
    }
    let pages = sum_page_files(entries);
    proof {
        assert(pages.free * ps <= pages.total * ps) by (nonlinear_arith)
            requires
                pages.free <= pages.total,
        ;
    }
    PageFileInfo { total: pages.total * ps, used: pages.used * ps, free: pages.free * ps }
}

/// In bytes, the free and used space together make up the total whenever
/// no more is used than the files hold.
pub proof fn lemma_free_and_used_make_total(entries: Seq<PageFileEntry>, page_size: usize)
    requires
        used_pages(entries) <= total_pages(entries),
    ensures
        free_pages(total_pages(entries), used_pages(entries)) * effective_page_size(page_size)
            + used_pages(entries) * effective_page_size(page_size)
            == total_pages(entries) * effective_page_size(page_size),
{
    let f: nat = free_pages(total_pages(entries), used_pages(entries));
    let u: nat = used_pages(entries);
    let t: nat = total_pages(entries);
    let p: nat = effective_page_size(page_size);
    assert(f * p + u * p == t * p) by (nonlinear_arith)
        requires
            f + u == t,
    ;
}


/// The page sums add up over the files: no files hold nothing, one file
/// holds its own sizes, and two lists of files together hold the sums of
/// both.
pub proof fn lemma_page_sums_add_up(a: Seq<PageFileEntry>, b: Seq<PageFileEntry>, e: PageFileEntry)
    ensures
        total_pages(Seq::empty()) == 0,
        used_pages(Seq::empty()) == 0,
        total_pages(seq![e]) == e.total_size,
        used_pages(seq![e]) == e.total_in_use,
        total_pages(a + b) == total_pages(a) + total_pages(b),
        used_pages(a + b) == used_pages(a) + used_pages(b),
    decreases b.len(),
{
    assert(seq![e].drop_last() =~= Seq::<PageFileEntry>::empty());
    if b.len() > 0 {
        lemma_page_sums_add_up(a, b.drop_last(), e);
        assert((a + b).drop_last() =~= a + b.drop_last());
        assert((a + b).last() == b.last());
    } else {
        assert(a + b =~= a);
    }
}

/// The fit check holds exactly when the total and used pages, times the page
/// size (one when the size is reported as zero), fit in 64 bits.
pub proof fn lemma_fit_is_the_overflow_bound(entries: Seq<PageFileEntry>, page_size: usize)
    ensures
        page_files_fit(entries, page_size) <==> (total_pages(entries) * (if page_size == 0 {
            1
        } else {
            page_size as nat
        }) <= 0xFFFF_FFFF_FFFF_FFFF && used_pages(entries) * (if page_size == 0 {
            1
        } else {
            page_size as nat
        }) <= 0xFFFF_FFFF_FFFF_FFFF),
{
}

/// Free pages are the total less the used pages, and none when at least the
/// total is used.
pub proof fn lemma_free_pages(total: nat, used: nat)
    ensures
        used <= total ==> free_pages(total, used) == total - used,
        used >= total ==> free_pages(total, used) == 0,
{
}


/// The page size is the reported size, or one when it is reported as zero.
pub proof fn lemma_effective_page_size(page_size: usize)
    ensures
        page_size == 0 ==> effective_page_size(page_size) == 1,
        page_size > 0 ==> effective_page_size(page_size) == page_size,
{
}

} // verus!

//! Per-adapter video memory, summed over the memory segments the kernel
//! reports: segments without an aperture are dedicated video memory, segments
//! with one are shared system memory.

use vstd::prelude::*;

verus! {

/// Upper bound on the segment count an adapter may report; a count above it
/// (or a count of zero) is taken as a failed query.
pub const MAX_SEGMENTS: u32 = 64;

/// Video memory of one adapter (resident and committed, dedicated and shared).
#[derive(Clone, Copy)]
pub struct SegmentUsage {
    /// Dedicated (non-aperture) segments: committed bytes.
    pub dedicated_committed: u64,
    /// Dedicated (non-aperture) segments: resident bytes (what Task Manager
    /// shows as dedicated GPU memory).
    pub dedicated_resident: u64,
    /// Shared (aperture) segments: committed bytes.
    pub shared_committed: u64,
    /// Shared (aperture) segments: resident bytes.
    pub shared_resident: u64,
}

/// What one segment query reported.
#[derive(Clone, Copy)]
pub struct SegmentSample {
    /// Non-zero for an aperture (shared system memory) segment.
    pub aperture: u32,
    /// Bytes committed in the segment.
    pub bytes_committed: u64,
    /// Bytes resident in the segment.
    pub bytes_resident: u64,
}

/// `n` capped at `u64::MAX`.
pub open spec fn saturating(n: int) -> u64 {
    if n > u64::MAX {
        u64::MAX
    } else {
        n as u64
    }
}

/// No memory in any segment.
pub open spec fn zero_usage() -> SegmentUsage {
    SegmentUsage { dedicated_committed: 0, dedicated_resident: 0, shared_committed: 0, shared_resident: 0 }
}

/// `u` with the segment `s` added to the totals of its kind, saturating.
pub open spec fn usage_after(u: SegmentUsage, s: SegmentSample) -> SegmentUsage {
    if s.aperture == 0 {
        SegmentUsage {
            dedicated_committed: saturating(u.dedicated_committed + s.bytes_committed),
            dedicated_resident: saturating(u.dedicated_resident + s.bytes_resident),
            shared_committed: u.shared_committed,
            shared_resident: u.shared_resident,
        }
    } else {
        SegmentUsage {
            dedicated_committed: u.dedicated_committed,
            dedicated_resident: u.dedicated_resident,
            shared_committed: saturating(u.shared_committed + s.bytes_committed),
            shared_resident: saturating(u.shared_resident + s.bytes_resident),
        }
    }
}

/// The totals over the segments, in order; a failed query (`None`) adds nothing.
pub open spec fn usage_of(samples: Seq<Option<SegmentSample>>) -> SegmentUsage
    decreases samples.len(),
{
    if samples.len() == 0 {
        zero_usage()
    } else {
        let u = usage_of(samples.drop_last());
        match samples.last() {
            Some(s) => usage_after(u, s),
            None => u,
        }
    }
}

/// Whether a reported segment count is usable.
pub open spec fn segment_count_ok(nb_segments: u32) -> bool {
    0 < nb_segments <= MAX_SEGMENTS
}

impl SegmentUsage {
    /// No memory in any segment.
    pub fn zero() -> (u: Self)
        ensures
            u == zero_usage(),
    {
        SegmentUsage { dedicated_committed: 0, dedicated_resident: 0, shared_committed: 0, shared_resident: 0 }
    }

    /// Adds one segment to the totals of its kind (saturating at `u64::MAX`).
    pub fn add_segment(&mut self, seg: SegmentSample)
        ensures
            *final(self) == usage_after(*old(self), seg),
    {
        if seg.aperture == 0 {
            self.dedicated_committed = self.dedicated_committed.saturating_add(seg.bytes_committed);
            self.dedicated_resident = self.dedicated_resident.saturating_add(seg.bytes_resident);
        } else {
            self.shared_committed = self.shared_committed.saturating_add(seg.bytes_committed);
            self.shared_resident = self.shared_resident.saturating_add(seg.bytes_resident);
        }
    }
}

impl Default for SegmentUsage {
    fn default() -> (u: Self)
        ensures
            u == zero_usage(),
    {
        SegmentUsage::zero()
    }
}

/// Whether an adapter's reported segment count is usable (1 to `MAX_SEGMENTS`).
pub fn segment_count_valid(nb_segments: u32) -> (ok: bool)
    ensures
        ok == segment_count_ok(nb_segments),
{
    nb_segments != 0 && nb_segments <= MAX_SEGMENTS
}

/// Sums the segments' memory by kind; failed queries (`None`) are skipped.
pub fn sum_segments(samples: &Vec<Option<SegmentSample>>) -> (u: SegmentUsage)
    ensures
        u == usage_of(samples@),
{
    let mut usage = SegmentUsage::zero();
    let mut i: usize = 0;
    while i < samples.len()
        invariant
            i <= samples@.len(),
            usage == usage_of(samples@.subrange(0, i as int)),
        decreases samples@.len() - i,
    {
        let ghost before = samples@.subrange(0, i as int);
        match samples[i] {
            Some(seg) => {
                usage.add_segment(seg);
            },
            None => {},
        }
        i = i + 1;
        assert(samples@.subrange(0, i as int).drop_last() =~= before);
    }
    assert(samples@.subrange(0, samples@.len() as int) =~= samples@);
    usage
}

/// The adapter's video memory from its segment count and the result of each
/// segment's query: `None` when the count is zero or above `MAX_SEGMENTS`,
/// else the per-kind totals of the segments that answered.
pub fn segment_usage_from_samples(nb_segments: u32, samples: &Vec<Option<SegmentSample>>) -> (r:
    Option<SegmentUsage>)
    ensures
        r == (if segment_count_ok(nb_segments) {
            Some(usage_of(samples@))
        } else {
            None
        }),
{
    if !segment_count_valid(nb_segments) {
        return None;
    }
    Some(sum_segments(samples))
}


/// How many segment queries to make after the adapter query: none when the
/// adapter query failed (non-zero status) or reported an unusable segment
/// count, else one per segment.
pub fn segment_queries_needed(adapter_status: i32, nb_segments: u32) -> (n: u32)
    ensures
        n == (if adapter_status == 0 && segment_count_ok(nb_segments) {
            nb_segments
        } else {
            0
        }),
{
    if adapter_status != 0 || !segment_count_valid(nb_segments) {
        0
    } else {
        nb_segments
    }
}

/// The adapter's video memory from the adapter query's status and segment
/// count and the result of each segment's query: `None` when the adapter
/// query failed (non-zero status) or the count is zero or above
/// `MAX_SEGMENTS`, else the per-kind totals of the segments that answered.
pub fn adapter_segment_usage(
    adapter_status: i32,
    nb_segments: u32,
    samples: &Vec<Option<SegmentSample>>,
) -> (r: Option<SegmentUsage>)
    ensures
        r == (if adapter_status == 0 && segment_count_ok(nb_segments) {
            Some(usage_of(samples@))
        } else {
            None
        }),
{
    if adapter_status != 0 {
        return None;
    }
    segment_usage_from_samples(nb_segments, samples)
}

/// The bytes one segment contributes to a total: committed or resident
/// bytes, of shared (aperture) or dedicated segments.
pub open spec fn contribution(sample: Option<SegmentSample>, shared: bool, committed: bool) -> nat {
    match sample {
        Some(s) => if (s.aperture != 0) == shared {
            if committed {
                s.bytes_committed as nat
            } else {
                s.bytes_resident as nat
            }
        } else {
            0
        },
        None => 0,
    }
}

/// The exact (unbounded) sum of the contributions of all segments.
pub open spec fn exact_total(samples: Seq<Option<SegmentSample>>, shared: bool, committed: bool) -> nat
    decreases samples.len(),
{
    if samples.len() == 0 {
        0
    } else {
        exact_total(samples.drop_last(), shared, committed) + contribution(samples.last(), shared, committed)
    }
}

/// Each of the four totals is the exact sum over the segments of its kind,
/// capped once at `u64::MAX`: saturating segment by segment loses nothing
/// but the excess, whatever the order of the segments.
pub proof fn lemma_totals_are_capped_sums(samples: Seq<Option<SegmentSample>>)
    ensures
        usage_of(samples).dedicated_committed == saturating(exact_total(samples, false, true) as int),
        usage_of(samples).dedicated_resident == saturating(exact_total(samples, false, false) as int),
        usage_of(samples).shared_committed == saturating(exact_total(samples, true, true) as int),
        usage_of(samples).shared_resident == saturating(exact_total(samples, true, false) as int),
    decreases samples.len(),
{
    if samples.len() > 0 {
        lemma_totals_are_capped_sums(samples.drop_last());
    }
}

/// Every segment counts in exactly one kind: the dedicated and shared exact
/// totals together are the sum over all segments.
pub proof fn lemma_kinds_partition(samples: Seq<Option<SegmentSample>>, committed: bool)
    ensures
        exact_total(samples, false, committed) + exact_total(samples, true, committed)
            == exact_total_all(samples, committed),
    decreases samples.len(),
{
    if samples.len() > 0 {
        lemma_kinds_partition(samples.drop_last(), committed);
    }
}

/// The sum over all answering segments, of either kind.
pub open spec fn exact_total_all(samples: Seq<Option<SegmentSample>>, committed: bool) -> nat
    decreases samples.len(),
{
    if samples.len() == 0 {
        0
    } else {
        exact_total_all(samples.drop_last(), committed) + match samples.last() {
            Some(s) => if committed {
                s.bytes_committed as nat
            } else {
                s.bytes_resident as nat
            },
            None => 0,
        }
    }
}


proof fn lemma_total_without(s: Seq<Option<SegmentSample>>, j: int, shared: bool, committed: bool)
    requires
        0 <= j < s.len(),
    ensures
        exact_total(s, shared, committed) == exact_total(s.remove(j), shared, committed)
            + contribution(s[j], shared, committed),
    decreases s.len(),
{
    if j == s.len() - 1 {
        assert(s.remove(j) =~= s.drop_last());
    } else {
        lemma_total_without(s.drop_last(), j, shared, committed);
        assert(s.remove(j).drop_last() =~= s.drop_last().remove(j));
        assert(s.remove(j).last() == s.last());
        assert(s.remove(j).len() > 0);
    }
}

proof fn lemma_total_ignores_order(
    a: Seq<Option<SegmentSample>>,
    b: Seq<Option<SegmentSample>>,
    shared: bool,
    committed: bool,
)
    requires
        a.to_multiset() =~= b.to_multiset(),
    ensures
        exact_total(a, shared, committed) == exact_total(b, shared, committed),
    decreases a.len(),
{
    broadcast use vstd::seq_lib::group_to_multiset_ensures;

    if a.len() == 0 {
        assert(b.to_multiset().len() == 0);
        assert(b.len() == 0);
    } else {
        let x = a.last();
        assert(a.drop_last().push(x) =~= a);
        assert(a.to_multiset() =~= a.drop_last().to_multiset().insert(x));
        assert(b.to_multiset().count(x) > 0);
        assert(b.contains(x));
        let j = choose|j: int| 0 <= j < b.len() && b[j] == x;
        assert(b.remove(j).to_multiset() =~= b.to_multiset().remove(x));
        assert(a.drop_last().to_multiset() =~= b.remove(j).to_multiset());
        lemma_total_ignores_order(a.drop_last(), b.remove(j), shared, committed);
        lemma_total_without(b, j, shared, committed);
    }
}

/// The totals do not depend on the order in which the segments answered:
/// any reordering of the segment results gives the same usage.
pub proof fn lemma_usage_ignores_order(a: Seq<Option<SegmentSample>>, b: Seq<Option<SegmentSample>>)
    requires
        a.to_multiset() =~= b.to_multiset(),
    ensures
        usage_of(a) == usage_of(b),
{
    lemma_totals_are_capped_sums(a);
    lemma_totals_are_capped_sums(b);
    lemma_total_ignores_order(a, b, false, true);
    lemma_total_ignores_order(a, b, false, false);
    lemma_total_ignores_order(a, b, true, true);
    lemma_total_ignores_order(a, b, true, false);
}


/// Every segment count from 1 to 64 is usable and asks for one query per
/// segment; a count of 0 or above 64 is refused.
pub proof fn lemma_segment_counts(n: u32)
    ensures
        1 <= n <= 64 ==> segment_count_ok(n),
        n == 0 || n > 64 ==> !segment_count_ok(n),
{
}

/// Saturation keeps every value that fits in 64 bits and caps the others at
/// `u64::MAX`.
pub proof fn lemma_saturating(n: int)
    ensures
        0 <= n <= 0xFFFF_FFFF_FFFF_FFFF ==> saturating(n) as int == n,
        n > 0xFFFF_FFFF_FFFF_FFFF ==> saturating(n) == 0xFFFF_FFFF_FFFF_FFFFu64,
{
}

/// One segment contributes its own committed and resident bytes to the
/// totals of its kind (dedicated without an aperture, shared with one) and
/// nothing to the other kind; a failed query contributes nothing; and the
/// exact totals add up over the segments.
pub proof fn lemma_segment_contributions(
    a: Seq<Option<SegmentSample>>,
    b: Seq<Option<SegmentSample>>,
    s: SegmentSample,
    shared: bool,
    committed: bool,
)
    ensures
        exact_total(Seq::empty(), shared, committed) == 0,
        exact_total(seq![None], shared, committed) == 0,
        exact_total(seq![Some(s)], false, true) == (if s.aperture == 0 { s.bytes_committed as nat } else { 0 }),
        exact_total(seq![Some(s)], false, false) == (if s.aperture == 0 { s.bytes_resident as nat } else { 0 }),
        exact_total(seq![Some(s)], true, true) == (if s.aperture != 0 { s.bytes_committed as nat } else { 0 }),
        exact_total(seq![Some(s)], true, false) == (if s.aperture != 0 { s.bytes_resident as nat } else { 0 }),
        exact_total(a + b, shared, committed) == exact_total(a, shared, committed) + exact_total(b, shared, committed),
    decreases b.len(),
{
    assert(seq![Some(s)].drop_last() =~= Seq::<Option<SegmentSample>>::empty());
    assert(seq![None::<SegmentSample>].drop_last() =~= Seq::<Option<SegmentSample>>::empty());
    let one = seq![Some(s)];
    let empty = Seq::<Option<SegmentSample>>::empty();
    assert(exact_total(empty, false, true) == 0);
    assert(exact_total(empty, false, false) == 0);
    assert(exact_total(empty, true, true) == 0);
    assert(exact_total(empty, true, false) == 0);
    assert(one.last() == Some(s));
    assert(exact_total(one, false, true) == contribution(Some(s), false, true));
    assert(exact_total(one, false, false) == contribution(Some(s), false, false));
    assert(exact_total(one, true, true) == contribution(Some(s), true, true));
    assert(exact_total(one, true, false) == contribution(Some(s), true, false));
    if b.len() > 0 {
        lemma_segment_contributions(a, b.drop_last(), s, shared, committed);
        assert((a + b).drop_last() =~= a + b.drop_last());
        assert((a + b).last() == b.last());
    } else {
        assert(a + b =~= a);
    }
}

/// No segments (or only failed queries) give no memory at all.
pub proof fn lemma_no_segments()
    ensures
        usage_of(Seq::empty()) == (SegmentUsage {
            dedicated_committed: 0,
            dedicated_resident: 0,
            shared_committed: 0,
            shared_resident: 0,
        }),
{
}


/// Adding a segment adds its committed and resident bytes (saturating) to
/// the totals of its kind, dedicated without an aperture and shared with
/// one, and leaves the totals of the other kind unchanged.
pub proof fn lemma_add_segment_fields(u: SegmentUsage, s: SegmentSample)
    ensures
        s.aperture == 0 ==> usage_after(u, s).dedicated_committed as int == (if u.dedicated_committed
            + s.bytes_committed > 0xFFFF_FFFF_FFFF_FFFF {
            0xFFFF_FFFF_FFFF_FFFF
        } else {
            u.dedicated_committed + s.bytes_committed
        }),
        s.aperture == 0 ==> usage_after(u, s).dedicated_resident as int == (if u.dedicated_resident
            + s.bytes_resident > 0xFFFF_FFFF_FFFF_FFFF {
            0xFFFF_FFFF_FFFF_FFFF
        } else {
            u.dedicated_resident + s.bytes_resident
        }),
        s.aperture == 0 ==> usage_after(u, s).shared_committed == u.shared_committed
            && usage_after(u, s).shared_resident == u.shared_resident,
        s.aperture != 0 ==> usage_after(u, s).shared_committed as int == (if u.shared_committed
            + s.bytes_committed > 0xFFFF_FFFF_FFFF_FFFF {
            0xFFFF_FFFF_FFFF_FFFF
        } else {
            u.shared_committed + s.bytes_committed
        }),
        s.aperture != 0 ==> usage_after(u, s).shared_resident as int == (if u.shared_resident
            + s.bytes_resident > 0xFFFF_FFFF_FFFF_FFFF {
            0xFFFF_FFFF_FFFF_FFFF
        } else {
            u.shared_resident + s.bytes_resident
        }),
        s.aperture != 0 ==> usage_after(u, s).dedicated_committed == u.dedicated_committed
            && usage_after(u, s).dedicated_resident == u.dedicated_resident,
{
}

} // verus!

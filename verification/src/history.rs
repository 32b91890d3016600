//! Sliding windows of recent samples, one per dashboard card.

use std::collections::VecDeque;
use vstd::prelude::*;

verus! {

/// Number of samples a window keeps.
pub const HISTORY_LEN: usize = 40;

/// `s` after a new sample was appended: the oldest sample leaves once the
/// window would exceed `HISTORY_LEN`.
pub open spec fn window_push<T>(s: Seq<T>, value: T) -> Seq<T> {
    let t = s.push(value);
    if t.len() > HISTORY_LEN {
        t.subrange(1, t.len() as int)
    } else {
        t
    }
}

/// The window after pushing every sample of `xs`, in order.
pub open spec fn window_push_all<T>(s: Seq<T>, xs: Seq<T>) -> Seq<T>
    decreases xs.len(),
{
    if xs.len() == 0 {
        s
    } else {
        window_push(window_push_all(s, xs.drop_last()), xs.last())
    }
}

/// The last `HISTORY_LEN` elements of `s` (all of them when fewer).
pub open spec fn last_window<T>(s: Seq<T>) -> Seq<T> {
    if s.len() > HISTORY_LEN {
        s.subrange(s.len() - HISTORY_LEN, s.len() as int)
    } else {
        s
    }
}

/// A bounded window of the most recent samples, oldest first.
pub struct History<T> {
    samples: VecDeque<T>,
}

impl<T> View for History<T> {
    type V = Seq<T>;

    closed spec fn view(&self) -> Seq<T> {
        self.samples@
    }
}

impl<T> History<T> {
    #[verifier::type_invariant]
    closed spec fn bounded(self) -> bool {
        self.samples@.len() <= HISTORY_LEN
    }

    /// Number of samples held.
    pub fn len(&self) -> (n: usize)
        ensures
            n == self@.len(),
            n <= HISTORY_LEN,
    {
        proof {
            use_type_invariant(self);
        }
        self.samples.len()
    }

    /// Appends `value` as the newest sample; the oldest one leaves when the
    /// window is full.
    pub fn push(&mut self, value: T)
        ensures
            final(self)@ == window_push(old(self)@, value),
            final(self)@.len() == if old(self)@.len() < HISTORY_LEN {
                old(self)@.len() + 1
            } else {
                HISTORY_LEN as nat
            },
            final(self)@.last() == value,
    {
        proof {
            use_type_invariant(&*self);
        }
        let mut samples = VecDeque::new();
        std::mem::swap(&mut samples, &mut self.samples);
        samples.push_back(value);
        if samples.len() > HISTORY_LEN {
            samples.pop_front();
        }
        self.samples = samples;
    }
}

impl<T: Copy> History<T> {
    /// A full window whose samples all equal `value`.
    pub fn filled(value: T) -> (h: Self)
        ensures
            h@ == Seq::new(HISTORY_LEN as nat, |i: int| value),
    {
        let mut samples = VecDeque::new();
        let mut i: usize = 0;
        while i < HISTORY_LEN
            invariant
                i <= HISTORY_LEN,
                samples@ == Seq::new(i as nat, |k: int| value),
            decreases HISTORY_LEN - i,
        {
            samples.push_back(value);
            i = i + 1;
            assert(samples@ =~= Seq::new(i as nat, |k: int| value));
        }
        History { samples }
    }

    /// The samples, oldest first.
    pub fn samples(&self) -> (v: Vec<T>)
        ensures
            v@ == self@,
    {
        let mut v: Vec<T> = Vec::new();
        let n: usize = self.samples.len();
        let mut i: usize = 0;
        while i < n
            invariant
                i <= n,
                n == self.samples@.len(),
                v@ == self.samples@.subrange(0, i as int),
            decreases n - i,
        {
            v.push(self.samples[i]);
            i = i + 1;
            assert(v@ =~= self.samples@.subrange(0, i as int));
        }
        assert(v@ =~= self.samples@);
        v
    }
}


proof fn lemma_push_onto_last_window<T>(u: Seq<T>, x: T)
    ensures
        window_push(last_window(u), x) == last_window(u.push(x)),
{
    if u.len() > HISTORY_LEN {
        assert(window_push(last_window(u), x) =~= last_window(u.push(x)));
    } else {
        assert(window_push(last_window(u), x) =~= last_window(u.push(x)));
    }
}

/// A window shows exactly the latest `HISTORY_LEN` samples: starting from a
/// window `s`, pushing the samples `xs` one by one leaves the last
/// `HISTORY_LEN` elements of `s` followed by `xs`.
pub proof fn lemma_window_keeps_latest<T>(s: Seq<T>, xs: Seq<T>)
    requires
        s.len() <= HISTORY_LEN,
    ensures
        window_push_all(s, xs) == last_window(s + xs),
    decreases xs.len(),
{
    if xs.len() == 0 {
        assert(s + xs =~= s);
    } else {
        lemma_window_keeps_latest(s, xs.drop_last());
        lemma_push_onto_last_window(s + xs.drop_last(), xs.last());
        assert((s + xs.drop_last()).push(xs.last()) =~= s + xs);
    }
}

/// A window that is full stays full: pushing any samples onto a window of
/// `HISTORY_LEN` samples leaves a window of `HISTORY_LEN` samples.
pub proof fn lemma_full_window_stays_full<T>(s: Seq<T>, xs: Seq<T>)
    requires
        s.len() == HISTORY_LEN,
    ensures
        window_push_all(s, xs).len() == HISTORY_LEN,
{
    lemma_window_keeps_latest(s, xs);
}

/// The recent values of every card of the dashboard.
pub struct Histories<T> {
    pub phys: History<T>,
    pub gpu: History<T>,
    pub compressed: History<T>,
    pub commit: History<T>,
    pub cache: History<T>,
    pub pagefile: History<T>,
    pub working: History<T>,
    pub private: History<T>,
}

impl<T: Copy> Histories<T> {
    /// Every card starts with a full window of `initial` samples.
    pub fn filled(initial: T) -> (h: Self)
        ensures
            h.phys@ == Seq::new(HISTORY_LEN as nat, |i: int| initial),
            h.gpu@ == Seq::new(HISTORY_LEN as nat, |i: int| initial),
            h.compressed@ == Seq::new(HISTORY_LEN as nat, |i: int| initial),
            h.commit@ == Seq::new(HISTORY_LEN as nat, |i: int| initial),
            h.cache@ == Seq::new(HISTORY_LEN as nat, |i: int| initial),
            h.pagefile@ == Seq::new(HISTORY_LEN as nat, |i: int| initial),
            h.working@ == Seq::new(HISTORY_LEN as nat, |i: int| initial),
            h.private@ == Seq::new(HISTORY_LEN as nat, |i: int| initial),
    {
        Histories {
            phys: History::filled(initial),
            gpu: History::filled(initial),
            compressed: History::filled(initial),
            commit: History::filled(initial),
            cache: History::filled(initial),
            pagefile: History::filled(initial),
            working: History::filled(initial),
            private: History::filled(initial),
        }
    }
}


/// Pushing onto a window that is not full appends the sample; pushing onto
/// a full window drops the oldest sample and appends the new one, keeping
/// the rest in order.
pub proof fn lemma_window_push_explicit<T>(s: Seq<T>, value: T)
    requires
        s.len() <= HISTORY_LEN,
    ensures
        s.len() < 40 ==> window_push(s, value) == s.push(value),
        s.len() == 40 ==> window_push(s, value).len() == 40,
        s.len() == 40 ==> forall|i: int| 0 <= i < 39 ==> #[trigger] window_push(s, value)[i] == s[i + 1],
        window_push(s, value)[window_push(s, value).len() - 1] == value,
{
}

} // verus!

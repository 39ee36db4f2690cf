//! The rolling sensor history behind the graph: timestamped samples,
//! oldest first, of which only the last minute (and at most
//! `HISTORY_LEN` samples) is kept.
//!
//! Timestamps are nanoseconds since the session started, which is what a
//! `Duration` holds; the sample values are whatever the caller plots.
use vstd::prelude::*;

verus! {

/// The most samples a history keeps.
pub const HISTORY_LEN: usize = 600;

/// How far back a history reaches: 60 s, in nanoseconds.
pub const HISTORY_SPAN: u64 = 60_000_000_000;

/// Whether the oldest sample has to go: there is more than one sample, and
/// the oldest is older than the span or there are too many.
pub open spec fn is_stale<V>(s: Seq<(u64, V)>, now: u64) -> bool {
    s.len() > 1 && (s[0].0 + HISTORY_SPAN < now || s.len() > HISTORY_LEN)
}

/// `s` after dropping stale samples from the front.
pub open spec fn prune<V>(s: Seq<(u64, V)>, now: u64) -> Seq<(u64, V)>
    decreases s.len(),
{
    if is_stale(s, now) {
        prune(s.drop_first(), now)
    } else {
        s
    }
}

/// Whether timestamps never decrease along `s`.
pub open spec fn in_time_order<V>(s: Seq<(u64, V)>) -> bool {
    forall|i: int, j: int| 0 <= i <= j < s.len() ==> #[trigger] s[i].0 <= #[trigger] s[j].0
}

/// One rolling series.
pub struct History<V> {
    pub samples: Vec<(u64, V)>,
}

impl<V> History<V> {
    /// An empty series.
    pub fn new() -> (h: Self)
        ensures
            h.samples@ == Seq::<(u64, V)>::empty(),
    {
        History { samples: Vec::new() }
    }

    /// Appends the sample `value` taken at `now`, then drops stale samples.
    pub fn record(&mut self, now: u64, value: V)
        ensures
            final(self).samples@ == prune(old(self).samples@.push((now, value)), now),
    {
        self.samples.push((now, value));
        let ghost start = self.samples@;
        while self.samples.len() > 1 && ((now >= HISTORY_SPAN && self.samples[0].0 < now
            - HISTORY_SPAN) || self.samples.len() > HISTORY_LEN)
            invariant
                prune(self.samples@, now) == prune(start, now),
            decreases self.samples.len(),
        {
            let ghost before = self.samples@;
            assert(is_stale(before, now));
            self.samples.remove(0);
            assert(self.samples@ =~= before.drop_first());
        }
        assert(!is_stale(self.samples@, now));
    }
}

proof fn lemma_prune_suffix<V>(s: Seq<(u64, V)>, now: u64)
    ensures
        prune(s, now).len() <= s.len(),
        prune(s, now) == s.skip(s.len() - prune(s, now).len()),
        s.len() > 0 ==> prune(s, now).len() > 0,
        prune(s, now).len() <= HISTORY_LEN,
        !is_stale(prune(s, now), now),
    decreases s.len(),
{
    if is_stale(s, now) {
        let t = s.drop_first();
        lemma_prune_suffix(t, now);
        let p = prune(t, now);
        assert(t.skip(t.len() - p.len()) =~= s.skip(s.len() - p.len()));
    } else {
        assert(s.skip(0) =~= s);
    }
}

/// The samples kept are the newest ones, at most `HISTORY_LEN` of them,
/// and the sample just recorded is always among them, last.
pub proof fn law_record_keeps_newest<V>(s: Seq<(u64, V)>, now: u64, value: V)
    ensures
        ({
            let p = prune(s.push((now, value)), now);
            &&& 1 <= p.len() <= HISTORY_LEN
            &&& p == s.push((now, value)).skip(s.len() + 1 - p.len())
            &&& p.last() == (now, value)
        }),
{
    let t = s.push((now, value));
    lemma_prune_suffix(t, now);
    let p = prune(t, now);
    assert(p.last() == t.skip(t.len() - p.len())[p.len() - 1]);
}

/// In a series recorded in time order, every sample kept is at most one
/// span old, unless it is the only one.
pub proof fn law_record_window<V>(s: Seq<(u64, V)>, now: u64, value: V)
    requires
        in_time_order(s.push((now, value))),
    ensures
        ({
            let p = prune(s.push((now, value)), now);
            &&& in_time_order(p)
            &&& p.len() > 1 ==> forall|i: int| 0 <= i < p.len() ==> #[trigger] p[i].0
                + HISTORY_SPAN >= now
        }),
{
    let t = s.push((now, value));
    lemma_prune_suffix(t, now);
    let p = prune(t, now);
    let k = t.len() - p.len();
    assert forall|i: int, j: int| 0 <= i <= j < p.len() implies #[trigger] p[i].0
        <= #[trigger] p[j].0 by {
        assert(p[i] == t[k + i]);
        assert(p[j] == t[k + j]);
    }
    if p.len() > 1 {
        assert(!is_stale(p, now));
        assert forall|i: int| 0 <= i < p.len() implies #[trigger] p[i].0 + HISTORY_SPAN
            >= now by {
            assert(p[0].0 <= p[i].0);
        }
    }
}

/// Whether sample `j` of `s` has to go once the samples before it are gone:
/// it is the oldest of more than one, and older than the span or one too
/// many.
pub open spec fn must_go<V>(s: Seq<(u64, V)>, j: int, now: u64) -> bool {
    s.len() - j > 1 && (s[j].0 + HISTORY_SPAN < now || s.len() - j > HISTORY_LEN)
}

/// Recording drops only what must go: the result is a suffix of the
/// series; each sample dropped had to go when it was dropped; and the
/// first sample kept need not (its neighbours are within `HISTORY_SPAN`
/// and `HISTORY_LEN` bounds, unless it is the only one).
pub proof fn law_prune_drops_only_what_must_go<V>(s: Seq<(u64, V)>, now: u64)
    ensures
        0 <= s.len() - prune(s, now).len() <= s.len(),
        prune(s, now) == s.skip(s.len() - prune(s, now).len()),
        forall|j: int| 0 <= j < s.len() - prune(s, now).len() ==> #[trigger] must_go(s, j, now),
        prune(s, now).len() > 1 ==> prune(s, now)[0].0 + HISTORY_SPAN >= now && prune(s, now).len()
            <= HISTORY_LEN,
    decreases s.len(),
{
    if is_stale(s, now) {
        let t = s.drop_first();
        law_prune_drops_only_what_must_go(t, now);
        let p = prune(t, now);
        let kt = t.len() - p.len();
        assert(t.skip(kt) =~= s.skip(kt + 1));
        assert forall|j: int| 0 <= j < kt + 1 implies #[trigger] must_go(s, j, now) by {
            if j > 0 {
                assert(must_go(t, j - 1, now));
                assert(s[j] == t[j - 1]);
            }
        }
        assert(prune(s, now) == p);
    } else {
        assert(s.skip(0) =~= s);
    }
}

/// A series whose samples are all within `HISTORY_SPAN` of now and that
/// holds at most `HISTORY_LEN` samples keeps every sample.
pub proof fn law_prune_keeps_recent<V>(s: Seq<(u64, V)>, now: u64)
    requires
        s.len() <= HISTORY_LEN,
        forall|i: int| 0 <= i < s.len() ==> #[trigger] s[i].0 + HISTORY_SPAN >= now,
    ensures
        prune(s, now) == s,
{
    law_prune_drops_only_what_must_go(s, now);
    let p = prune(s, now);
    let k = s.len() - p.len();
    if k > 0 {
        assert(must_go(s, 0, now));
    }
    assert(s.skip(0) =~= s);
}

} // verus!

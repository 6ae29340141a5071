//! The latency window: last/min/max/average over a bounded rolling history
//! of round-trip samples, plus a cumulative probe-error counter. The window
//! resets whenever the tracked endpoint address changes.

use vstd::prelude::*;
use crate::history::{History, HISTORY_CAP, hist_seq, hist_new, hist_len, hist_push_back, hist_pop_front,
    hist_clear, hist_get};

verus! {

/// Sentinel for `min_ping` while no sample has been observed: larger than
/// any realistic round-trip time, so the first sample replaces it.
pub const MIN_SENTINEL: u32 = 999999999;

/// Running maximum of `s`, folded left from 0 (the initial `max_ping`).
pub open spec fn seq_max(s: Seq<u32>) -> u32
    decreases s.len(),
{
    if s.len() == 0 {
        0u32
    } else {
        let m = seq_max(s.drop_last());
        if s.last() > m {
            s.last()
        } else {
            m
        }
    }
}

/// Running minimum of `s`, folded left from the sentinel (the initial
/// `min_ping`).
pub open spec fn seq_min(s: Seq<u32>) -> u32
    decreases s.len(),
{
    if s.len() == 0 {
        MIN_SENTINEL
    } else {
        let m = seq_min(s.drop_last());
        if s.last() < m {
            s.last()
        } else {
            m
        }
    }
}

/// Sum of the samples in `s`, as an unbounded integer.
pub open spec fn seq_sum(s: Seq<u32>) -> int
    decreases s.len(),
{
    if s.len() == 0 {
        0int
    } else {
        seq_sum(s.drop_last()) + s.last()
    }
}

/// The suffix of `s` that a history of capacity `HISTORY_CAP` retains:
/// all of `s` when it fits, else its last `HISTORY_CAP` elements.
pub open spec fn retained(s: Seq<u32>) -> Seq<u32> {
    if s.len() <= HISTORY_CAP {
        s
    } else {
        s.subrange(s.len() - HISTORY_CAP, s.len() as int)
    }
}

/// Appending a sample to the full sequence appends it to the retained
/// suffix, evicting the oldest retained sample first when the suffix is at
/// capacity.
proof fn lemma_retained_push(s: Seq<u32>, x: u32)
    ensures
        retained(s).len() < HISTORY_CAP ==> retained(s.push(x)) == retained(s).push(x),
        retained(s).len() >= HISTORY_CAP ==> retained(s.push(x)) == retained(s).drop_first().push(x),
{
    if s.len() < HISTORY_CAP {
        assert(retained(s.push(x)) =~= retained(s).push(x));
    } else {
        assert(retained(s.push(x)) =~= retained(s).drop_first().push(x));
    }
}

/// Rolling latency statistics for the tracked endpoint `ip`.
///
/// `samples` is the (ghost) sequence of every round-trip sample accepted
/// since the last reset; the executable fields are characterized against
/// it by `wf`. The extrema run over all of `samples` while the history and
/// the average cover only the retained suffix.
pub struct PingResult {
    pub ip: String,
    pub last_ping: u32,
    pub max_ping: u32,
    pub min_ping: u32,
    pub ping_history: History,
    pub error_count: u32,
    pub samples: Ghost<Seq<u32>>,
}

impl PingResult {
    /// The retained history contents, oldest first.
    pub open spec fn hist(self) -> Seq<u32> {
        hist_seq(self.ping_history)
    }

    /// The executable statistics agree with the sample sequence: the
    /// history holds exactly the retained suffix, `last_ping` is the most
    /// recent sample, and the extrema are the running extrema over every
    /// sample since the last reset.
    pub open spec fn wf(self) -> bool {
        &&& self.hist() == retained(self.samples@)
        &&& self.last_ping == (if self.samples@.len() == 0 {
            0u32
        } else {
            self.samples@.last()
        })
        &&& self.max_ping == seq_max(self.samples@)
        &&& self.min_ping == seq_min(self.samples@)
    }

    /// No sample and no error recorded yet, tracking `ip`.
    pub open spec fn is_initial_for(self, ip: Seq<char>) -> bool {
        &&& self.ip@ == ip
        &&& self.last_ping == 0
        &&& self.max_ping == 0
        &&& self.min_ping == MIN_SENTINEL
        &&& self.hist() == Seq::<u32>::empty()
        &&& self.error_count == 0
        &&& self.samples@ == Seq::<u32>::empty()
    }

    /// Fresh window tracking `ip`.
    pub fn new(ip: String) -> (w: PingResult)
        ensures
            w.wf(),
            w.is_initial_for(ip@),
    {
        PingResult {
            ip,
            last_ping: 0,
            max_ping: 0,
            min_ping: MIN_SENTINEL,
            ping_history: hist_new(),
            error_count: 0,
            samples: Ghost(Seq::empty()),
        }
    }

    /// Folds one successful probe into the statistics: `ping` becomes the
    /// most recent sample, the running extrema absorb it, and it is
    /// appended to the history, evicting the oldest retained sample first
    /// when the history is at capacity.
    pub fn update_ping(&mut self, ping: u32)
        requires
            old(self).wf(),
        ensures
            final(self).wf(),
            final(self).samples@ == old(self).samples@.push(ping),
            final(self).ip@ == old(self).ip@,
            final(self).error_count == old(self).error_count,
            final(self).last_ping == ping,
            final(self).max_ping == (if ping > old(self).max_ping {
                ping
            } else {
                old(self).max_ping
            }),
            final(self).min_ping == (if ping < old(self).min_ping {
                ping
            } else {
                old(self).min_ping
            }),
            final(self).hist() == (if old(self).hist().len() < HISTORY_CAP {
                old(self).hist().push(ping)
            } else {
                old(self).hist().drop_first().push(ping)
            }),
    {
        self.last_ping = ping;
        if ping > self.max_ping {
            self.max_ping = ping;
        }
        if ping < self.min_ping {
            self.min_ping = ping;
        }
        let ok = hist_push_back(&mut self.ping_history, ping);
        if !ok {
            let _evicted = hist_pop_front(&mut self.ping_history);
            let _ = hist_push_back(&mut self.ping_history, ping);
        }
        proof {
            self.samples@ = self.samples@.push(ping);
            lemma_retained_push(old(self).samples@, ping);
            assert(old(self).samples@.push(ping).drop_last() =~= old(self).samples@);
        }
    }

    /// Records one failed probe. Every ping statistic — last, extrema,
    /// history, sample sequence, tracked address — is left untouched.
    pub fn update_error(&mut self)
        requires
            old(self).error_count < u32::MAX,
        ensures
            final(self).error_count == old(self).error_count + 1,
            final(self).ip@ == old(self).ip@,
            final(self).last_ping == old(self).last_ping,
            final(self).max_ping == old(self).max_ping,
            final(self).min_ping == old(self).min_ping,
            final(self).ping_history == old(self).ping_history,
            final(self).samples == old(self).samples,
            old(self).wf() ==> final(self).wf(),
    {
        self.error_count = self.error_count + 1;
    }

    /// Integer-truncated mean of the retained history, or 0 while the
    /// history is empty. The average covers only the retained suffix, not
    /// every sample the extrema have seen.
    pub fn get_avg_ping(&self) -> (avg: u32)
        ensures
            self.hist().len() == 0 ==> avg == 0,
            self.hist().len() > 0 ==> avg as int == seq_sum(self.hist()) / (self.hist().len()
                as int),
    {
        let n = hist_len(&self.ping_history);
        if n == 0 {
            return 0;
        }
        let mut sum: u64 = 0;
        let mut i: usize = 0;
        while i < n
            invariant
                n == self.hist().len(),
                n <= HISTORY_CAP,
                i <= n,
                sum == seq_sum(self.hist().take(i as int)),
                sum <= (i as int) * (u32::MAX as int),
            decreases n - i,
        {
            let v: u32 = match hist_get(&self.ping_history, i) {
                Some(v) => v,
                None => 0,
            };
            proof {
                assert(self.hist().take(i + 1).drop_last() =~= self.hist().take(i as int));
                assert(self.hist().take(i + 1).last() == self.hist()[i as int]);
            }
            sum = sum + v as u64;
            i = i + 1;
        }
        proof {
            assert(self.hist().take(n as int) =~= self.hist());
            vstd::arithmetic::div_mod::lemma_div_is_ordered(
                sum as int,
                (n as int) * (u32::MAX as int),
                n as int,
            );
            vstd::arithmetic::div_mod::lemma_div_multiples_vanish(u32::MAX as int, n as int);
        }
        (sum / (n as u64)) as u32
    }

    /// Adopts `ip` as the tracked endpoint. A changed address resets every
    /// statistic — last, extrema, history, error count — to its initial
    /// state; an unchanged address leaves the window exactly as it was.
    pub fn set_ip(&mut self, ip: String)
        ensures
            ip@ == old(self).ip@ ==> *final(self) == *old(self),
            ip@ != old(self).ip@ ==> final(self).is_initial_for(ip@) && final(self).wf(),
            old(self).wf() ==> final(self).wf(),
    {
        if ip != self.ip {
            self.ip = ip;
            self.last_ping = 0;
            self.max_ping = 0;
            self.min_ping = MIN_SENTINEL;
            hist_clear(&mut self.ping_history);
            self.error_count = 0;
            proof {
                self.samples@ = Seq::empty();
            }
        }
    }

    /// Number of retained samples.
    pub fn history_len(&self) -> (n: usize)
        ensures
            n == self.hist().len(),
            n <= HISTORY_CAP,
    {
        hist_len(&self.ping_history)
    }

    /// The retained sample at position `i`, oldest first.
    pub fn history_get(&self, i: usize) -> (r: Option<u32>)
        ensures
            i < self.hist().len() ==> r == Some(self.hist()[i as int]),
            i >= self.hist().len() ==> r is None,
    {
        hist_get(&self.ping_history, i)
    }
}

proof fn lemma_seq_max_exact(s: Seq<u32>)
    requires
        s.len() > 0,
    ensures
        s.contains(seq_max(s)),
        forall|i: int| 0 <= i < s.len() ==> s[i] <= seq_max(s),
    decreases s.len(),
{
    if s.len() == 1 {
        assert(s[0] == seq_max(s));
    } else {
        lemma_seq_max_exact(s.drop_last());
        let m = seq_max(s.drop_last());
        if s.last() > m {
            assert(s[s.len() - 1] == seq_max(s));
        } else {
            let j = choose|j: int| 0 <= j < s.drop_last().len() && s.drop_last()[j] == m;
            assert(s[j] == seq_max(s));
        }
        assert forall|i: int| 0 <= i < s.len() implies s[i] <= seq_max(s) by {
            if i < s.len() - 1 {
                assert(s.drop_last()[i] == s[i]);
            }
        }
    }
}

proof fn lemma_seq_min_exact(s: Seq<u32>)
    requires
        s.len() > 0,
        forall|i: int| 0 <= i < s.len() ==> s[i] <= MIN_SENTINEL,
    ensures
        s.contains(seq_min(s)),
        forall|i: int| 0 <= i < s.len() ==> s[i] >= seq_min(s),
    decreases s.len(),
{
    if s.len() == 1 {
        assert(s[0] == seq_min(s));
    } else {
        assert forall|i: int| 0 <= i < s.drop_last().len() implies s.drop_last()[i]
            <= MIN_SENTINEL by {
            assert(s.drop_last()[i] == s[i]);
        }
        lemma_seq_min_exact(s.drop_last());
        let m = seq_min(s.drop_last());
        if s.last() < m {
            assert(s[s.len() - 1] == seq_min(s));
        } else {
            let j = choose|j: int| 0 <= j < s.drop_last().len() && s.drop_last()[j] == m;
            assert(s[j] == seq_min(s));
        }
        assert forall|i: int| 0 <= i < s.len() implies s[i] >= seq_min(s) by {
            if i < s.len() - 1 {
                assert(s.drop_last()[i] == s[i]);
            }
        }
    }
}

/// Law: in a well-formed window with at least one sample since the last
/// reset, `last_ping` is the most recent sample and `max_ping` /
/// `min_ping` are the true extrema over every sample observed — the
/// minimum provided no sample exceeds the initialization sentinel, which
/// the running minimum can never rise above.
pub proof fn lemma_window_stats(w: PingResult)
    requires
        w.wf(),
        w.samples@.len() > 0,
        forall|i: int| 0 <= i < w.samples@.len() ==> w.samples@[i] <= MIN_SENTINEL,
    ensures
        w.last_ping == w.samples@.last(),
        w.samples@.contains(w.max_ping),
        forall|i: int| 0 <= i < w.samples@.len() ==> w.samples@[i] <= w.max_ping,
        w.samples@.contains(w.min_ping),
        forall|i: int| 0 <= i < w.samples@.len() ==> w.samples@[i] >= w.min_ping,
{
    lemma_seq_max_exact(w.samples@);
    lemma_seq_min_exact(w.samples@);
}

/// Law: a well-formed window retains at most the last `HISTORY_CAP` samples in
/// FIFO order — the history is exactly the most recent suffix of the
/// sample sequence, so appending a 1001st sample keeps samples 2..=1001
/// and the first is gone.
pub proof fn lemma_history_fifo(w: PingResult)
    requires
        w.wf(),
    ensures
        w.hist().len() <= HISTORY_CAP,
        w.samples@.len() <= HISTORY_CAP ==> w.hist() == w.samples@,
        w.samples@.len() > HISTORY_CAP ==> w.hist() == w.samples@.subrange(
            w.samples@.len() - HISTORY_CAP,
            w.samples@.len() as int,
        ),
        forall|i: int|
            0 <= i < w.hist().len() ==> w.hist()[i] == w.samples@[w.samples@.len() - w.hist().len()
                + i],
{
}

impl Default for PingResult {
    /// Fresh window with no tracked address.
    fn default() -> (w: PingResult)
        ensures
            w.wf(),
            w.is_initial_for(Seq::<char>::empty()),
    {
        let w = PingResult::new(String::new());
        w
    }
}

} // verus!

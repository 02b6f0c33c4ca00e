use vstd::prelude::*;
use crate::models::Subscription;

verus! {

/// One channel slot of the registry: which channel the slot was opened
/// for, and whether it still owns its socket halves.
#[derive(Debug, Clone, Copy, PartialEq, Eq, Structural)]
pub struct ChannelSlot {
    pub channel: Subscription,
    pub live: bool,
}

/// The slots after every live slot of `c` is released.
pub open spec fn close_transform(s: Seq<ChannelSlot>, c: Subscription) -> Seq<ChannelSlot> {
    s.map_values(
        |sl: ChannelSlot| ChannelSlot { channel: sl.channel, live: sl.live && sl.channel != c },
    )
}

/// Law: releasing one channel's slot never touches another channel's —
/// every slot of a different channel stays exactly as it was.
pub proof fn lemma_close_preserves_other_channels(s: Seq<ChannelSlot>, c: Subscription)
    ensures
        close_transform(s, c).len() == s.len(),
        forall|i: int|
            0 <= i < s.len() && s[i].channel != c ==> close_transform(s, c)[i] == s[i],
{
}

/// The arena of channel slots. A slot's index is its stable token: the
/// socket halves that the host layer holds are keyed by it. A channel has
/// at most one live slot; opening a channel again replaces its slot.
#[derive(Debug, Clone, PartialEq)]
pub struct ChannelRegistry {
    pub slots: Vec<ChannelSlot>,
}

impl ChannelRegistry {
    /// Whether token `t` names a live slot.
    pub open spec fn is_live(&self, t: int) -> bool {
        0 <= t < self.slots@.len() && self.slots@[t].live
    }

    /// Whether some live slot belongs to channel `c`.
    pub open spec fn has_live(&self, c: Subscription) -> bool {
        exists|i: int| self.is_live(i) && self.slots@[i].channel == c
    }

    /// At most one live slot per channel.
    pub open spec fn wf(&self) -> bool {
        forall|i: int, j: int|
            0 <= i < j < self.slots@.len() ==> !(self.slots@[i].live && self.slots@[j].live
                && self.slots@[i].channel == self.slots@[j].channel)
    }

    pub fn new() -> (r: Self)
        ensures
            r.slots@.len() == 0,
            r.wf(),
    {
        ChannelRegistry { slots: Vec::new() }
    }

    /// Releases every live slot of channel `c`, in place.
    fn release_channel(&mut self, c: Subscription)
        ensures
            final(self).slots@ == close_transform(old(self).slots@, c),
    {
        let n: usize = self.slots.len();
        let mut i: usize = 0;
        while i < n
            invariant
                0 <= i <= n,
                n == self.slots@.len(),
                old(self).slots@.len() == n,
                forall|j: int|
                    0 <= j < i ==> self.slots@[j] == close_transform(old(self).slots@, c)[j],
                forall|j: int| i <= j < n ==> self.slots@[j] == old(self).slots@[j],
            decreases n - i,
        {
            let sl = self.slots[i];
            let dead_or_other = sl.live && !(sl.channel == c);
            self.slots.set(i, ChannelSlot { channel: sl.channel, live: dead_or_other });
            i = i + 1;
        }
        proof {
            assert(self.slots@ =~= close_transform(old(self).slots@, c));
        }
    }

    /// Opens channel `c`: releases any earlier slot of `c` and claims a
    /// fresh token for the new one. Re-subscribing replaces, never
    /// duplicates.
    pub fn open_channel(&mut self, c: Subscription) -> (token: usize)
        requires
            old(self).wf(),
            old(self).slots@.len() < usize::MAX,
        ensures
            final(self).wf(),
            token == old(self).slots@.len(),
            final(self).slots@ == close_transform(old(self).slots@, c).push(
                ChannelSlot { channel: c, live: true },
            ),
            final(self).is_live(token as int),
            final(self).slots@[token as int].channel == c,
    {
        self.release_channel(c);
        let token = self.slots.len();
        self.slots.push(ChannelSlot { channel: c, live: true });
        token
    }

    /// Closes channel `c`: releases its slot and returns its token, or
    /// nothing where no live slot of `c` exists. Slots of every other
    /// channel are left exactly as they were.
    pub fn close_channel(&mut self, c: Subscription) -> (r: Option<usize>)
        requires
            old(self).wf(),
        ensures
            final(self).wf(),
            final(self).slots@ == close_transform(old(self).slots@, c),
            (match r {
                Some(t) => old(self).is_live(t as int) && old(self).slots@[t as int].channel == c,
                None => !old(self).has_live(c),
            }),
    {
        let n: usize = self.slots.len();
        let mut found: Option<usize> = None;
        let mut i: usize = 0;
        while i < n
            invariant
                0 <= i <= n,
                n == self.slots@.len(),
                (match found {
                    Some(t) => self.is_live(t as int) && self.slots@[t as int].channel == c,
                    None => forall|j: int|
                        0 <= j < i ==> !(self.is_live(j) && self.slots@[j].channel == c),
                }),
            decreases n - i,
        {
            let sl = self.slots[i];
            if sl.live && sl.channel == c {
                found = Some(i);
            }
            i = i + 1;
        }
        self.release_channel(c);
        found
    }

    /// Whether any slot is live.
    pub fn any_live(&self) -> (r: bool)
        ensures
            r == exists|i: int| self.is_live(i),
    {
        let n: usize = self.slots.len();
        let mut i: usize = 0;
        while i < n
            invariant
                0 <= i <= n,
                n == self.slots@.len(),
                forall|j: int| 0 <= j < i ==> !self.is_live(j),
            decreases n - i,
        {
            if self.slots[i].live {
                assert(self.is_live(i as int));
                return true;
            }
            i = i + 1;
        }
        false
    }
}

/// What one poll of the merged event source does next.
#[derive(Debug, Clone, Copy, PartialEq, Eq, Structural)]
pub enum PollDecision {
    /// Read the slot with this token; it is live and has data.
    Yield(usize),
    /// No slot is live: the merged source ends with `NoStreamSubscribed`.
    Terminal,
    /// Some slot is live but none has data: wait.
    Suspend,
}

/// The round-robin distance from `from` to `i` in a ring of `n` slots.
pub open spec fn rr_dist(n: int, from: int, i: int) -> int {
    if i >= from {
        i - from
    } else {
        i - from + n
    }
}

/// Decides one poll of the merged source over the registry's live slots,
/// where `ready[t]` says that slot `t` has a decoded frame waiting and
/// `last` is the token served before.
///
/// With no live slot the source is terminal; with live slots but no data
/// it suspends; otherwise it yields the nearest ready live slot after
/// `last`, round-robin, so no ready channel is ever passed over in favor
/// of one further from its turn.
pub fn poll_decision(reg: &ChannelRegistry, ready: &Vec<bool>, last: usize) -> (r: PollDecision)
    requires
        ready@.len() == reg.slots@.len(),
        last < reg.slots@.len() || reg.slots@.len() == 0,
    ensures
        (r == PollDecision::Terminal) <==> !(exists|i: int| reg.is_live(i)),
        (r == PollDecision::Suspend) <==> ((exists|i: int| reg.is_live(i)) && !(exists|i: int|
            reg.is_live(i) && ready@[i])),
        (r matches PollDecision::Yield(t) ==> reg.is_live(t as int) && ready@[t as int] && (forall|
            j: int,
        |
            reg.is_live(j) && ready@[j] ==> rr_dist(
                reg.slots@.len() as int,
                start_of(reg.slots@.len() as int, last as int),
                t as int,
            ) <= rr_dist(
                reg.slots@.len() as int,
                start_of(reg.slots@.len() as int, last as int),
                j,
            ))),
{
    let n: usize = reg.slots.len();
    if !reg.any_live() {
        return PollDecision::Terminal;
    }
    assert(n > 0);
    let from: usize = if last + 1 >= n {
        0
    } else {
        last + 1
    };
    assert(from as int == start_of(n as int, last as int));
    let mut o: usize = 0;
    while o < n
        invariant
            0 <= o <= n,
            0 < n == reg.slots@.len() == ready@.len(),
            0 <= from < n,
            from as int == start_of(n as int, last as int),
            forall|d: int|
                0 <= d < o ==> !(reg.is_live(wrap_index(n as int, from as int, d)) && ready@[
                    wrap_index(n as int, from as int, d)
                ]),
        decreases n - o,
    {
        let idx: usize = if o >= n - from {
            o - (n - from)
        } else {
            from + o
        };
        assert(idx as int == wrap_index(n as int, from as int, o as int));
        if reg.slots[idx].live && ready[idx] {
            proof {
                assert(reg.is_live(idx as int) && ready@[idx as int]);
                assert(rr_dist(n as int, from as int, idx as int) == o as int);
                assert forall|j: int| reg.is_live(j) && ready@[j] implies rr_dist(
                    reg.slots@.len() as int,
                    start_of(reg.slots@.len() as int, last as int),
                    idx as int,
                ) <= rr_dist(
                    reg.slots@.len() as int,
                    start_of(reg.slots@.len() as int, last as int),
                    j,
                ) by {
                    let d = rr_dist(n as int, from as int, j);
                    assert(0 <= d < n);
                    assert(wrap_index(n as int, from as int, d) == j);
                    if d < o {
                        assert(!(reg.is_live(j) && ready@[j]));
                    }
                    assert(rr_dist(reg.slots@.len() as int, start_of(reg.slots@.len() as int, last as int), j)
                        == rr_dist(n as int, from as int, j));
                }
            }
            return PollDecision::Yield(idx);
        }
        o = o + 1;
    }
    proof {
        assert forall|i: int| reg.is_live(i) implies !ready@[i] by {
            let d = rr_dist(n as int, from as int, i);
            assert(0 <= d < n);
            assert(wrap_index(n as int, from as int, d) == i);
        }
    }
    PollDecision::Suspend
}

/// Where a round-robin scan begins: just after the token served last.
pub open spec fn start_of(n: int, last: int) -> int {
    if last + 1 >= n {
        0
    } else {
        last + 1
    }
}

/// The slot index at round-robin offset `d` from `from`.
pub open spec fn wrap_index(n: int, from: int, d: int) -> int {
    if from + d >= n {
        from + d - n
    } else {
        from + d
    }
}

} // verus!

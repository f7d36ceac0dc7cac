use vstd::prelude::*;

verus! {

/// Whether a pending sequence number lies behind the observed one, counting
/// the 16-bit sequence space as a circle: the forward distance from `observed`
/// to `pending` is more than half of the space.
pub open spec fn is_obsolete(pending: u16, observed: u16) -> bool {
    let distance = if pending >= observed {
        pending - observed
    } else {
        pending + 0x1_0000 - observed
    };
    distance > 0x7FFF
}

/// The pending set after `observed` was seen: entries that lie behind it and
/// entries equal to it are dropped.
pub open spec fn sweep(pending: Seq<u16>, observed: u16) -> Seq<u16>
    decreases pending.len(),
{
    if pending.len() == 0 {
        Seq::empty()
    } else {
        let init = pending.drop_last();
        let x = pending.last();
        let rest = sweep(init, observed);
        if is_obsolete(x, observed) || x == observed {
            rest
        } else {
            rest.push(x)
        }
    }
}

/// Sequence numbers of requests that this window manager issued and whose
/// echoing notifications it means to ignore.
#[derive(Debug)]
pub struct IgnoredSequences {
    pending: Vec<u16>,
}

impl View for IgnoredSequences {
    type V = Seq<u16>;

    closed spec fn view(&self) -> Seq<u16> {
        self.pending@
    }
}

impl IgnoredSequences {
    /// An empty set.
    pub fn new() -> (r: IgnoredSequences)
        ensures
            r@ == Seq::<u16>::empty(),
    {
        IgnoredSequences { pending: Vec::new() }
    }

    /// The number of pending entries.
    pub fn len(&self) -> (r: usize)
        ensures
            r == self@.len(),
    {
        self.pending.len()
    }

    /// Records a sequence number whose notification is to be ignored.
    pub fn record(&mut self, seq: u16)
        ensures
            final(self)@ == old(self)@.push(seq),
    {
        self.pending.push(seq);
    }

    /// Whether a notification carrying `seq` was caused by a recorded request.
    /// Drops every entry that lies behind `seq` or equals it.
    pub fn should_ignore(&mut self, seq: u16) -> (r: bool)
        ensures
            r == old(self)@.contains(seq),
            final(self)@ == sweep(old(self)@, seq),
    {
        let ghost old_pending = self.pending@;
        let n = self.pending.len();
        let mut kept: Vec<u16> = Vec::new();
        let mut found = false;
        let mut i: usize = 0;
        while i < n
            invariant
                n == old_pending.len(),
                self.pending@ == old_pending,
                i <= n,
                found == old_pending.take(i as int).contains(seq),
                kept@ == sweep(old_pending.take(i as int), seq),
            decreases n - i,
        {
            let x = self.pending[i];
            let ghost prefix = old_pending.take(i as int);
            assert(old_pending.take(i + 1).drop_last() =~= prefix);
            assert(old_pending.take(i + 1).last() == x);
            proof {
                let t = old_pending.take(i + 1);
                if t.contains(seq) && !prefix.contains(seq) {
                    let k = choose|k: int| 0 <= k < t.len() && #[trigger] t[k] == seq;
                    if k < i {
                        assert(prefix[k] == seq);
                    }
                }
                if prefix.contains(seq) {
                    let k = choose|k: int| 0 <= k < prefix.len() && #[trigger] prefix[k] == seq;
                    assert(t[k] == seq);
                }
                if x == seq {
                    assert(t[i as int] == seq);
                }
            }
            let distance: u16 = if x >= seq {
                x - seq
            } else {
                (x as u32 + 0x1_0000 - seq as u32) as u16
            };
            if x == seq {
                found = true;
            } else if distance <= 0x7FFF {
                kept.push(x);
            }
            i += 1;
        }
        assert(old_pending.take(n as int) =~= old_pending);
        self.pending = kept;
        found
    }
}

/// Everything still pending after `observed` was seen was pending before,
/// differs from `observed`, and lies at most half the sequence space ahead
/// of it: the set cannot grow without bound.
pub proof fn lemma_sweep_keeps_only_recent(pending: Seq<u16>, observed: u16)
    ensures
        forall|x: u16| #[trigger]
            sweep(pending, observed).contains(x) ==> pending.contains(x) && !is_obsolete(
                x,
                observed,
            ) && x != observed,
    decreases pending.len(),
{
    if pending.len() > 0 {
        let init = pending.drop_last();
        lemma_sweep_keeps_only_recent(init, observed);
        assert forall|x: u16| #[trigger]
            sweep(pending, observed).contains(x) implies pending.contains(x) && !is_obsolete(
                x,
                observed,
            ) && x != observed by {
            let rest = sweep(init, observed);
            if rest.contains(x) {
                let k = choose|k: int| 0 <= k < init.len() && #[trigger] init[k] == x;
                assert(pending[k] == x);
            } else {
                assert(sweep(pending, observed) == rest.push(pending.last()));
                let sw = sweep(pending, observed);
                let k = choose|k: int| 0 <= k < sw.len() && #[trigger] sw[k] == x;
                assert(k == rest.len());
                assert(pending[pending.len() - 1] == x);
            }
        }
    }
}

/// A recorded sequence number is filtered exactly once: observing it reports
/// it as pending, and afterwards it is no longer pending, so a second
/// observation is not filtered. Nothing behind it stays pending either, and
/// nothing new appears.
pub proof fn lemma_filtered_exactly_once(pending: Seq<u16>, seq: u16)
    ensures
        pending.push(seq).contains(seq),
        !sweep(pending.push(seq), seq).contains(seq),
        forall|x: u16| #[trigger]
            sweep(pending.push(seq), seq).contains(x) ==> pending.contains(x) && !is_obsolete(
                x,
                seq,
            ),
{
    let q = pending.push(seq);
    assert(q[pending.len() as int] == seq);
    assert(q.drop_last() =~= pending);
    lemma_sweep_keeps_only_recent(q, seq);
    lemma_sweep_keeps_only_recent(pending, seq);
    assert(sweep(q, seq) == sweep(pending, seq));
}

/// The pending set after the numbers `observed` were seen, in order.
pub open spec fn sweep_all(pending: Seq<u16>, observed: Seq<u16>) -> Seq<u16>
    decreases observed.len(),
{
    if observed.len() == 0 {
        pending
    } else {
        sweep(sweep_all(pending, observed.drop_last()), observed.last())
    }
}

/// After a run of observed numbers, what is still pending was pending
/// before, is none of the observed numbers, and lies at most half the
/// sequence space ahead of the last one: the set only shrinks.
pub proof fn lemma_sweep_all_shrinks(pending: Seq<u16>, observed: Seq<u16>)
    requires
        observed.len() > 0,
    ensures
        forall|x: u16| #[trigger]
            sweep_all(pending, observed).contains(x) ==> pending.contains(x) && !observed.contains(
                x,
            ) && !is_obsolete(x, observed.last()),
    decreases observed.len(),
{
    let init = observed.drop_last();
    let q = sweep_all(pending, init);
    lemma_sweep_keeps_only_recent(q, observed.last());
    if init.len() > 0 {
        lemma_sweep_all_shrinks(pending, init);
    }
    assert forall|x: u16| #[trigger]
        sweep_all(pending, observed).contains(x) implies pending.contains(x) && !observed.contains(
        x,
    ) && !is_obsolete(x, observed.last()) by {
        assert(q.contains(x));
        if observed.contains(x) {
            let j = choose|j: int| 0 <= j < observed.len() && observed[j] == x;
            if j < init.len() {
                assert(init[j] == x);
            }
        }
    }
}

} // verus!

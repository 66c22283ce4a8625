//! Minimal snapshot channel: the latest value, with a version per update.
//!
//! The sender owns the snapshot; a receiver remembers which version it saw
//! last and reads through the sender it came from.
use std::marker::PhantomData;
use vstd::prelude::*;

verus! {

/// How many versions can be told apart.
pub const VERSIONS: u128 = 0x1_0000_0000_0000_0000;

/// Sending end of a snapshot channel.
pub struct WatchSender<T> {
    latest: T,
    version: u64,
}

/// Receiving end of a snapshot channel; created per consumer.
pub struct WatchReceiver<T> {
    seen: u64,
    carries: PhantomData<T>,
}

impl<T> WatchSender<T> {
    /// The current snapshot.
    pub closed spec fn latest(self) -> T {
        self.latest
    }

    /// How often the snapshot was replaced, modulo 2^64.
    pub closed spec fn version(self) -> u64 {
        self.version
    }

    /// `after` is this channel after one replacement by `value`.
    pub open spec fn replaced(self, value: T, after: WatchSender<T>) -> bool {
        &&& after.latest() == value
        &&& after.version() == (self.version() + 1) % VERSIONS as int
    }

    /// Creates a channel carrying `initial` as the current snapshot.
    pub fn new(initial: T) -> (r: (WatchSender<T>, WatchReceiver<T>))
        ensures
            r.0.latest() == initial,
            r.0.version() == 0,
            r.1.seen() == 0,
    {
        (WatchSender { latest: initial, version: 0 }, WatchReceiver { seen: 0, carries: PhantomData })
    }

    /// Replaces the published snapshot; every receiver sees the change.
    pub fn set(&mut self, value: T)
        ensures
            old(self).replaced(value, *final(self)),
            final(self).version() != old(self).version(),
    {
        self.latest = value;
        self.version = self.version.wrapping_add(1);
    }

    /// Creates a receiver that sees the current snapshot immediately.
    pub fn subscribe(&self) -> (r: WatchReceiver<T>)
        ensures
            r.seen() == self.version(),
    {
        WatchReceiver { seen: self.version, carries: PhantomData }
    }
}

impl<T> WatchReceiver<T> {
    /// The version that this receiver saw last.
    pub closed spec fn seen(self) -> u64 {
        self.seen
    }

    /// `after` is this receiver once it was asked whether `from` changed, and
    /// `r` the answer.
    pub open spec fn asked(
        self,
        from: WatchSender<T>,
        after: WatchReceiver<T>,
        r: bool,
    ) -> bool {
        &&& r == (from.version() != self.seen())
        &&& after.seen() == from.version()
    }

    /// Whether a newer snapshot was published since the last one seen; it
    /// then counts as seen.
    pub fn changed(&mut self, from: &WatchSender<T>) -> (r: bool)
        ensures
            old(self).asked(*from, *final(self), r),
    {
        let newer = from.version != self.seen;
        self.seen = from.version;
        newer
    }
}

impl<T: Clone> WatchReceiver<T> {
    /// Latest snapshot; a new consumer catches up to the full current state.
    pub fn borrow(&self, from: &WatchSender<T>) -> (r: T)
        ensures
            cloned(from.latest(), r),
    {
        from.latest.clone()
    }
}

/// Each channel of `states` is the one before it after one replacement.
pub open spec fn replacements<T>(states: Seq<WatchSender<T>>) -> bool {
    forall|i: int|
        0 < i < states.len() ==> states[i - 1].replaced(
            (#[trigger] states[i]).latest(),
            states[i],
        )
}

proof fn lemma_versions<T>(states: Seq<WatchSender<T>>, n: int)
    requires
        replacements(states),
        0 <= n < states.len(),
    ensures
        states[n].version() == (states[0].version() + n) % VERSIONS as int,
    decreases n,
{
    if n > 0 {
        lemma_versions(states, n - 1);
        assert(states[n - 1].replaced(states[n].latest(), states[n]));
        let v = states[0].version() as int;
        vstd::arithmetic::div_mod::lemma_add_mod_noop(v + n - 1, 1, VERSIONS as int);
        vstd::arithmetic::div_mod::lemma_small_mod(1, VERSIONS as nat);
    } else {
        vstd::arithmetic::div_mod::lemma_small_mod(
            states[0].version() as nat,
            VERSIONS as nat,
        );
    }
}

/// A receiver that saw the first of `states` finds a change in the last one
/// exactly when the snapshot was replaced in between, however often, as long
/// as the versions can be told apart; asked again, it finds none. A receiver
/// made by `subscribe` starts at the version of that moment, so replacements
/// before it do not count.
pub proof fn law_replacements_count_once<T>(
    states: Seq<WatchSender<T>>,
    rx: WatchReceiver<T>,
    once: WatchReceiver<T>,
    first: bool,
    twice: WatchReceiver<T>,
    second: bool,
)
    requires
        1 <= states.len() <= VERSIONS,
        replacements(states),
        rx.seen() == states[0].version(),
        rx.asked(states.last(), once, first),
        once.asked(states.last(), twice, second),
    ensures
        first == (states.len() > 1),
        !second,
{
    let n = states.len() - 1;
    lemma_versions(states, n);
    let v = states[0].version() as int;
    if n > 0 {
        if v + n < VERSIONS {
            vstd::arithmetic::div_mod::lemma_small_mod((v + n) as nat, VERSIONS as nat);
        } else {
            vstd::arithmetic::div_mod::lemma_mod_sub_multiples_vanish(v + n, VERSIONS as int);
            vstd::arithmetic::div_mod::lemma_small_mod((v + n - VERSIONS) as nat, VERSIONS as nat);
        }
    }
}

/// A replaced snapshot is the new value, and counts as a change for every
/// receiver that saw the one before; a receiver that was told of it has seen
/// it.
pub proof fn law_replacing_shows_the_new_value<T>(
    before: WatchSender<T>,
    value: T,
    after: WatchSender<T>,
    rx: WatchReceiver<T>,
    told: WatchReceiver<T>,
    changed: bool,
)
    requires
        before.replaced(value, after),
        rx.seen() == before.version(),
        rx.asked(after, told, changed),
    ensures
        after.latest() == value,
        changed,
        told.seen() == after.version(),
        after.version() != before.version(),
{
    let v = before.version() as int;
    assert(v + 1 <= VERSIONS);
    assert(v + 1 < VERSIONS ==> (v + 1) % VERSIONS as int == v + 1);
    assert(v + 1 == VERSIONS ==> (v + 1) % VERSIONS as int == 0);
}

} // verus!

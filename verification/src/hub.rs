//! The bookkeeping of the pub/sub fan-out: one Redis subscription per
//! channel, held while at least one local session wants the channel.

use vstd::prelude::*;
use crate::text::same_text;

verus! {

/// Channels with local subscribers, and how many each has.
pub struct ChannelRegistry {
    entries: Vec<(String, u64)>,
}

/// The channel names of `entries`, in order.
pub open spec fn entry_names(entries: Seq<(String, u64)>) -> Seq<Seq<char>> {
    entries.map_values(|e: (String, u64)| e.0@)
}

/// The subscriber counts after one more session joins `k`.
pub open spec fn subscribed(m: Map<Seq<char>, nat>, k: Seq<char>) -> Map<Seq<char>, nat> {
    if m.contains_key(k) {
        m.insert(k, m[k] + 1)
    } else {
        m.insert(k, 1)
    }
}

/// The subscriber counts after a session on `k` leaves: a channel whose
/// last session left is dropped.
pub open spec fn released(m: Map<Seq<char>, nat>, k: Seq<char>) -> Map<Seq<char>, nat> {
    if m.contains_key(k) && m[k] == 1 {
        m.remove(k)
    } else if m.contains_key(k) {
        m.insert(k, (m[k] - 1) as nat)
    } else {
        m
    }
}

/// A session that joins and then leaves a channel leaves the counts as they
/// were, whether or not the channel already had subscribers (counts of
/// listed channels are positive, as a registry keeps them).
pub proof fn lemma_release_undoes_subscribe(m: Map<Seq<char>, nat>, k: Seq<char>)
    requires
        forall|j: Seq<char>| m.contains_key(j) ==> m[j] > 0,
    ensures
        released(subscribed(m, k), k) =~= m,
{
    if m.contains_key(k) {
        assert(subscribed(m, k)[k] == m[k] + 1);
    }
}

impl View for ChannelRegistry {
    type V = Map<Seq<char>, nat>;

    /// Each channel with local subscribers, mapped to their number.
    closed spec fn view(&self) -> Map<Seq<char>, nat> {
        let names = entry_names(self.entries@);
        Map::new(
            |k: Seq<char>| names.contains(k),
            |k: Seq<char>| self.entries@[choose|i: int| 0 <= i < names.len() && names[i] == k].1 as nat,
        )
    }
}

impl ChannelRegistry {
    /// Every channel is listed once and has at least one subscriber.
    pub closed spec fn wf(&self) -> bool {
        &&& entry_names(self.entries@).no_duplicates()
        &&& forall|i: int| 0 <= i < self.entries@.len() ==> (#[trigger] self.entries@[i]).1 > 0
    }

    proof fn lemma_view_at(&self, i: int)
        requires
            self.wf(),
            0 <= i < self.entries@.len(),
        ensures
            self@.contains_key(self.entries@[i].0@),
            self@[self.entries@[i].0@] == self.entries@[i].1 as nat,
    {
        let names = entry_names(self.entries@);
        let k = self.entries@[i].0@;
        assert(names[i] == k);
        let j = choose|j: int| 0 <= j < names.len() && names[j] == k;
        assert(names[j] == names[i]);
    }

    proof fn lemma_positive(&self)
        requires
            self.wf(),
        ensures
            forall|k: Seq<char>| self@.contains_key(k) ==> self@[k] > 0,
    {
        assert forall|k: Seq<char>| self@.contains_key(k) implies self@[k] > 0 by {
            let names = entry_names(self.entries@);
            let i = choose|i: int| 0 <= i < names.len() && names[i] == k;
            self.lemma_view_at(i);
        }
    }

    /// No channels.
    pub fn new() -> (r: Self)
        ensures
            r.wf(),
            r@ == Map::<Seq<char>, nat>::empty(),
    {
        let r = ChannelRegistry { entries: Vec::new() };
        assert(r@ =~= Map::<Seq<char>, nat>::empty());
        r
    }

    fn find(&self, channel: &str) -> (r: Option<usize>)
        ensures
            match r {
                Some(i) => i < self.entries@.len() && self.entries@[i as int].0@ == channel@,
                None => !entry_names(self.entries@).contains(channel@),
            },
    {
        let mut i: usize = 0;
        while i < self.entries.len()
            invariant
                i <= self.entries@.len(),
                forall|j: int| 0 <= j < i ==> (#[trigger] self.entries@[j]).0@ != channel@,
            decreases self.entries.len() - i,
        {
            if same_text(self.entries[i].0.as_str(), channel) {
                return Some(i);
            }
            i = i + 1;
        }
        proof {
            let names = entry_names(self.entries@);
            if names.contains(channel@) {
                let j = choose|j: int| 0 <= j < names.len() && names[j] == channel@;
                assert(self.entries@[j].0@ == channel@);
            }
        }
        None
    }

    /// Whether `channel` has local subscribers.
    pub fn contains(&self, channel: &str) -> (b: bool)
        requires
            self.wf(),
        ensures
            b == self@.contains_key(channel@),
    {
        match self.find(channel) {
            Some(i) => {
                proof {
                    self.lemma_view_at(i as int);
                }
                true
            },
            None => false,
        }
    }

    /// A session subscribes to `channel`. Returns whether it is the first
    /// one, in which case the channel must be subscribed in Redis.
    pub fn subscribe(&mut self, channel: &str) -> (first: bool)
        requires
            old(self).wf(),
            old(self)@.contains_key(channel@) ==> old(self)@[channel@] < u64::MAX,
        ensures
            final(self).wf(),
            first == !old(self)@.contains_key(channel@),
            final(self)@ == subscribed(old(self)@, channel@),
            forall|k: Seq<char>| final(self)@.contains_key(k) ==> final(self)@[k] > 0,
    {
        let ghost before = self.entries@;
        let ghost old_view = self@;
        let found = self.find(channel);
        let first = match found {
            Some(i) => {
                proof {
                    self.lemma_view_at(i as int);
                }
                let name = self.entries[i].0.clone();
                let c = self.entries[i].1;
                self.entries.set(i, (name, c + 1));
                proof {
                    let names = entry_names(self.entries@);
                    assert(names =~= entry_names(before));
                    assert forall|k: Seq<char>| #[trigger] old_view.insert(channel@, old_view[channel@] + 1).contains_key(k) implies self@[k]
                        == old_view.insert(channel@, old_view[channel@] + 1)[k] by {
                        let j = choose|j: int| 0 <= j < names.len() && names[j] == k;
                        let j0 = choose|j: int| 0 <= j < entry_names(before).len() && entry_names(before)[j] == k;
                        assert(names[j] == names[j0]);
                        if k == channel@ {
                            assert(names[i as int] == k);
                            assert(j == i as int);
                        }
                    }
                    assert(entry_names(before)[i as int] == channel@);
                    assert forall|k: Seq<char>| #[trigger] self@.contains_key(k) <==> old_view.insert(channel@, old_view[channel@] + 1).contains_key(k) by {
                        assert(names.contains(k) == entry_names(before).contains(k));
                    }
                    assert(self@ =~= old_view.insert(channel@, old_view[channel@] + 1));
                }
                false
            },
            None => {
                self.entries.push((String::from_str(channel), 1));
                proof {
                    let names = entry_names(self.entries@);
                    let names0 = entry_names(before);
                    assert(names =~= names0.push(channel@));
                    assert forall|k: Seq<char>| #[trigger] names.contains(k) <==> (names0.contains(k) || k == channel@) by {
                        if names.contains(k) {
                            let j = choose|j: int| 0 <= j < names.len() && names[j] == k;
                            if j < names0.len() {
                                assert(names0[j] == k);
                            }
                        }
                        if names0.contains(k) {
                            let j = choose|j: int| 0 <= j < names0.len() && names0[j] == k;
                            assert(names[j] == k);
                        }
                        if k == channel@ {
                            assert(names[names0.len() as int] == k);
                        }
                    }
                    assert forall|k: Seq<char>| #[trigger] old_view.insert(channel@, 1).contains_key(k) implies self@[k]
                        == old_view.insert(channel@, 1)[k] by {
                        let j = choose|j: int| 0 <= j < names.len() && names[j] == k;
                        if k == channel@ {
                            assert(names[names0.len() as int] == k);
                            assert(j == names0.len());
                        } else {
                            let j0 = choose|j: int| 0 <= j < names0.len() && names0[j] == k;
                            assert(names[j0] == k);
                            assert(j == j0);
                        }
                    }
                    assert(self@ =~= old_view.insert(channel@, 1));
                }
                true
            },
        };
        proof {
            self.lemma_positive();
        }
        first
    }

    /// A session on `channel` ends. Returns whether it was the last one, in
    /// which case the channel is dropped and must be unsubscribed in Redis.
    pub fn release(&mut self, channel: &str) -> (last: bool)
        requires
            old(self).wf(),
        ensures
            final(self).wf(),
            last == (old(self)@.contains_key(channel@) && old(self)@[channel@] == 1),
            final(self)@ == released(old(self)@, channel@),
            forall|k: Seq<char>| final(self)@.contains_key(k) ==> final(self)@[k] > 0,
    {
        let ghost before = self.entries@;
        let ghost old_view = self@;
        let last = match self.find(channel) {
            Some(i) => {
                proof {
                    self.lemma_view_at(i as int);
                }
                let c = self.entries[i].1;
                if c == 1 {
                    let _gone = self.entries.remove(i);
                    proof {
                        let names = entry_names(self.entries@);
                        let names0 = entry_names(before);
                        assert(names =~= names0.remove(i as int));
                        assert(names0[i as int] == channel@);
                        assert forall|j: int| 0 <= j < names.len() implies #[trigger] names[j] == names0[if j < i { j } else { j + 1 }] by {}
                        assert forall|k: Seq<char>| #[trigger] self@.contains_key(k) <==> old_view.remove(channel@).contains_key(k) by {
                            if names.contains(k) {
                                let j = choose|j: int| 0 <= j < names.len() && names[j] == k;
                                let j1 = if j < i { j } else { j + 1 };
                                assert(names0[j1] == k);
                                assert(names0.contains(k));
                                assert(j1 != i);
                            }
                            if names0.contains(k) && k != channel@ {
                                let j = choose|j: int| 0 <= j < names0.len() && names0[j] == k;
                                assert(j != i);
                                let j1 = if j < i { j } else { j - 1 };
                                assert(names[j1] == k);
                                assert(names.contains(k));
                            }
                        }
                        assert forall|k: Seq<char>| #[trigger] old_view.remove(channel@).contains_key(k) implies self@[k]
                            == old_view.remove(channel@)[k] by {
                            assert(self@.contains_key(k));
                            let j = choose|j: int| 0 <= j < names.len() && names[j] == k;
                            let j0 = choose|j: int| 0 <= j < names0.len() && names0[j] == k;
                            let j1 = if j < i { j } else { j + 1 };
                            assert(names0[j1] == k);
                            assert(j1 == j0);
                            assert(self.entries@[j] == before[j1]);
                        }
                        assert(self@ =~= old_view.remove(channel@));
                    }
                    true
                } else {
                    let name = self.entries[i].0.clone();
                    self.entries.set(i, (name, c - 1));
                    proof {
                        let names = entry_names(self.entries@);
                        let target = old_view.insert(channel@, (old_view[channel@] - 1) as nat);
                        assert(names =~= entry_names(before));
                        assert forall|k: Seq<char>| #[trigger] target.contains_key(k) implies self@[k] == target[k] by {
                            let j = choose|j: int| 0 <= j < names.len() && names[j] == k;
                            let j0 = choose|j: int| 0 <= j < entry_names(before).len() && entry_names(before)[j] == k;
                            assert(names[j] == names[j0]);
                            if k == channel@ {
                                assert(names[i as int] == k);
                                assert(j == i as int);
                            }
                        }
                        assert(entry_names(before)[i as int] == channel@);
                        assert forall|k: Seq<char>| #[trigger] self@.contains_key(k) <==> target.contains_key(k) by {
                            assert(names.contains(k) == entry_names(before).contains(k));
                        }
                        assert(self@ =~= target);
                    }
                    false
                }
            },
            None => false,
        };
        proof {
            self.lemma_positive();
        }
        last
    }

    /// Every channel with local subscribers, once each (to resubscribe
    /// after a reconnect).
    pub fn channels(&self) -> (v: Vec<String>)
        requires
            self.wf(),
        ensures
            v@.map_values(|s: String| s@).no_duplicates(),
            forall|k: Seq<char>| v@.map_values(|s: String| s@).contains(k) <==> self@.contains_key(k),
    {
        let mut v: Vec<String> = Vec::new();
        let mut i: usize = 0;
        while i < self.entries.len()
            invariant
                i <= self.entries@.len(),
                v@.map_values(|s: String| s@) == entry_names(self.entries@).take(i as int),
            decreases self.entries.len() - i,
        {
            let ghost prev = v@;
            let name = self.entries[i].0.clone();
            v.push(name);
            assert(v@.map_values(|s: String| s@) =~= prev.map_values(|s: String| s@).push(name@));
            assert(entry_names(self.entries@).take(i as int + 1) =~= entry_names(self.entries@).take(i as int).push(entry_names(self.entries@)[i as int]));
            i = i + 1;
        }
        assert(entry_names(self.entries@).take(i as int) =~= entry_names(self.entries@));
        v
    }
}

/// The first reconnect delay, in milliseconds.
pub const FIRST_BACKOFF_MS: u64 = 250;

/// The longest reconnect delay, in milliseconds.
pub const MAX_BACKOFF_MS: u64 = 10_000;

/// The delay before the next reconnect attempt: doubled, at most
/// `MAX_BACKOFF_MS`.
pub fn next_backoff(ms: u64) -> (next: u64)
    ensures
        next == (if 2 * ms < MAX_BACKOFF_MS { 2 * ms } else { MAX_BACKOFF_MS as int }),
{
    if ms < MAX_BACKOFF_MS / 2 {
        ms * 2
    } else {
        MAX_BACKOFF_MS
    }
}

/// What a live feed receives from its channel.
pub enum FeedEvent {
    /// A published message, and whether it reads as an order status event.
    Message { readable: bool },
    /// The session fell behind and missed messages.
    Lagged,
    /// The channel is gone.
    Closed,
}

/// What a live feed does with it.
#[derive(Clone, Copy, PartialEq, Eq, Structural, Debug)]
pub enum FeedAction {
    /// Send the order event to the client.
    Forward,
    /// Drop a message that is not an order event.
    Skip,
    /// Tell the client to reload: it missed events.
    Resync,
    /// End the session.
    End,
}

/// A feed forwards readable events, skips unreadable ones, asks the client
/// to resync after lagging, and ends when the channel closes.
pub fn feed_action(event: &FeedEvent) -> (a: FeedAction)
    ensures
        a == (match *event {
            FeedEvent::Message { readable } => if readable {
                FeedAction::Forward
            } else {
                FeedAction::Skip
            },
            FeedEvent::Lagged => FeedAction::Resync,
            FeedEvent::Closed => FeedAction::End,
        }),
{
    match event {
        FeedEvent::Message { readable } => if *readable {
            FeedAction::Forward
        } else {
            FeedAction::Skip
        },
        FeedEvent::Lagged => FeedAction::Resync,
        FeedEvent::Closed => FeedAction::End,
    }
}

} // verus!

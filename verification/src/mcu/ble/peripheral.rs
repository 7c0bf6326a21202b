//! Serving the phone: what was stored while it was away, newest first, and then each new point.
use crate::mcu::store;
use crate::mcu::store::{DataPoint, Store};
use vstd::prelude::*;

verus! {

/// The name that the recorder goes by.
pub const DEVICE_NAME: &'static str = "BikeComputer";

/// The advertising data: flags, the 128-bit service UUID, and the local name.
pub const ADV_DATA: [u8; 35] = [
    0x02, 0x01, 0x06,
    0x11, 0x07, 0x05, 0x3A, 0x96, 0x4D, 0xE4, 0x1E, 0x60, 0x8C, 0x4B, 0x59, 0xE4, 0xED, 0x01, 0x00, 0xCE, 0xBE,
    0x0D, 0x09, 0x42, 0x69, 0x6B, 0x65, 0x43, 0x6F, 0x6D, 0x70, 0x75, 0x74, 0x65, 0x72,
];

/// What is being sent.
#[derive(Clone, Copy, Debug, PartialEq, Eq, Structural)]
pub enum Feed {
    /// The stored points, which leave the store as they are sent.
    Replay,
    /// Each new point, which stays in the store.
    Live,
    /// Nothing more on this connection.
    Stopped,
}

/// What the task is about to do.
#[derive(Clone, Copy, Debug, PartialEq, Eq, Structural)]
pub enum Stage {
    /// Start advertising.
    Advertise,
    /// Wait for the phone to connect.
    Accept,
    /// Attach the attribute server to the connection.
    Attach,
    /// Answer the phone while it is connected, and send points until that fails. The stage is
    /// over when both have ended.
    Serve { connected: bool, feed: Feed },
}

#[derive(Clone, Copy, Debug, PartialEq, Eq, Structural)]
pub enum PeripheralEvent {
    Advertised(bool),
    Accepted(bool),
    Attached(bool),
    /// The phone is gone.
    Disconnected,
    /// A notification was sent, or failed.
    Notified(bool),
    /// There is no way to learn of new points.
    NoUpdates,
}

impl Stage {
    /// The stage after an event, before it is seen whether it has ended. What fails before the
    /// connection is served starts over. An event that the stage does not wait for changes nothing.
    pub open spec fn moved(self, event: PeripheralEvent) -> Stage {
        match (self, event) {
            (Stage::Advertise, PeripheralEvent::Advertised(true)) => Stage::Accept,
            (Stage::Accept, PeripheralEvent::Accepted(ok)) => if ok {
                Stage::Attach
            } else {
                Stage::Advertise
            },
            (Stage::Attach, PeripheralEvent::Attached(ok)) => if ok {
                Stage::Serve { connected: true, feed: Feed::Replay }
            } else {
                Stage::Advertise
            },
            (Stage::Serve { feed, .. }, PeripheralEvent::Disconnected) => Stage::Serve {
                connected: false,
                feed,
            },
            (Stage::Serve { connected, .. }, PeripheralEvent::Notified(false)) => Stage::Serve {
                connected,
                feed: Feed::Stopped,
            },
            (Stage::Serve { connected, feed: Feed::Live }, PeripheralEvent::NoUpdates) => {
                Stage::Serve { connected, feed: Feed::Stopped }
            },
            _ => self,
        }
    }

    /// The stage after an event. Serving that has ended both ways starts over.
    pub open spec fn after(self, event: PeripheralEvent) -> Stage {
        if self.moved(event) == (Stage::Serve { connected: false, feed: Feed::Stopped }) {
            Stage::Advertise
        } else {
            self.moved(event)
        }
    }

    pub fn on_event(&mut self, event: PeripheralEvent)
        ensures
            *final(self) == old(self).after(event),
    {
        let next = match (*self, event) {
            (Stage::Advertise, PeripheralEvent::Advertised(ok)) => if ok {
                Stage::Accept
            } else {
                Stage::Advertise
            },
            (Stage::Accept, PeripheralEvent::Accepted(ok)) => if ok {
                Stage::Attach
            } else {
                Stage::Advertise
            },
            (Stage::Attach, PeripheralEvent::Attached(ok)) => if ok {
                Stage::Serve { connected: true, feed: Feed::Replay }
            } else {
                Stage::Advertise
            },
            (Stage::Serve { feed, .. }, PeripheralEvent::Disconnected) => Stage::Serve {
                connected: false,
                feed,
            },
            (Stage::Serve { connected, .. }, PeripheralEvent::Notified(false)) => Stage::Serve {
                connected,
                feed: Feed::Stopped,
            },
            (Stage::Serve { connected, feed: Feed::Live }, PeripheralEvent::NoUpdates) => {
                Stage::Serve { connected, feed: Feed::Stopped }
            },
            _ => *self,
        };
        *self = match next {
            Stage::Serve { connected: false, feed: Feed::Stopped } => Stage::Advertise,
            _ => next,
        };
    }

    /// The bytes that are sent next of these stored points.
    pub open spec fn payload(self, stored: Seq<DataPoint>) -> Option<Seq<u8>> {
        match self {
            Stage::Serve { feed: Feed::Replay, .. } | Stage::Serve { feed: Feed::Live, .. } => {
                if stored.len() > 0 {
                    Some(stored.last().wire())
                } else {
                    None
                }
            },
            _ => None,
        }
    }

    /// What is left in the store.
    pub open spec fn left(self, stored: Seq<DataPoint>) -> Seq<DataPoint> {
        if self matches Stage::Serve { feed: Feed::Replay, .. } && stored.len() > 0 {
            stored.drop_last()
        } else {
            stored
        }
    }

    /// The stage once the next point has been taken: a replay that found none goes live.
    pub open spec fn fed(self, stored: Seq<DataPoint>) -> Stage {
        match self {
            Stage::Serve { connected, feed: Feed::Replay } => if stored.len() == 0 {
                Stage::Serve { connected, feed: Feed::Live }
            } else {
                self
            },
            _ => self,
        }
    }

    /// Takes the next notification's bytes out of the store: in a replay at once, and live when a
    /// point was stored.
    pub fn next_notification(&mut self, store: &mut Store) -> (r: Option<heapless::Vec<u8, 24>>)
        ensures
            *final(self) == old(self).fed(old(store)@),
            final(store)@ == old(self).left(old(store)@),
            match r {
                Some(packed) => old(self).payload(old(store)@) == Some(store::packet(packed)),
                None => old(self).payload(old(store)@) is None,
            },
    {
        match *self {
            Stage::Serve { connected, feed: Feed::Replay } => match store.pop_newest() {
                Some(point) => Some(point.pack()),
                None => {
                    *self = Stage::Serve { connected, feed: Feed::Live };
                    None
                },
            },
            Stage::Serve { feed: Feed::Live, .. } => match store.peek_latest() {
                Some(point) => Some(point.pack()),
                None => None,
            },
            _ => None,
        }
    }
}

/// The store after `k` notifications of a replay.
pub open spec fn left_after(stage: Stage, stored: Seq<DataPoint>, k: nat) -> Seq<DataPoint>
    decreases k,
{
    if k == 0 {
        stored
    } else {
        stage.left(left_after(stage, stored, (k - 1) as nat))
    }
}

/// A replay sends the stored points newest first, each once: notification number `k` carries the
/// `k`-th newest point, and once they are all sent the store is empty and the feed goes live.
pub proof fn law_replay_is_newest_first(connected: bool, stored: Seq<DataPoint>, k: nat)
    requires
        k <= stored.len(),
    ensures
        ({
            let stage = Stage::Serve { connected, feed: Feed::Replay };
            let left = left_after(stage, stored, k);
            &&& left == stored.take(stored.len() - k)
            &&& k < stored.len() ==> stage.payload(left) == Some(
                stored[stored.len() - 1 - k].wire(),
            )
            &&& k < stored.len() ==> stage.fed(left) == stage
            &&& k == stored.len() ==> stage.fed(left) == (Stage::Serve {
                connected,
                feed: Feed::Live,
            }) && stage.payload(left) is None
        }),
    decreases k,
{
    if k == 0 {
        assert(stored.take(stored.len() as int) =~= stored);
    } else {
        law_replay_is_newest_first(connected, stored, (k - 1) as nat);
        assert(stored.take(stored.len() - (k - 1)).drop_last() =~= stored.take(stored.len() - k));
    }
}

/// What was recorded while the phone was away reaches it: of the points that were stored one by
/// one, notification number `k` of the replay carries the `k`-th newest, as far back as the store
/// goes.
pub proof fn law_recorded_points_are_replayed(connected: bool, pushed: Seq<DataPoint>, k: nat)
    requires
        k < pushed.len(),
        k < store::CAPACITY,
    ensures
        ({
            let stage = Stage::Serve { connected, feed: Feed::Replay };
            let stored = store::after_pushes(Seq::empty(), pushed);
            stage.payload(left_after(stage, stored, k)) == Some(
                pushed[pushed.len() - 1 - k].wire(),
            )
        }),
{
    let stored = store::after_pushes(Seq::empty(), pushed);
    store::law_keeps_the_newest(Seq::empty(), pushed);
    assert(Seq::<DataPoint>::empty() + pushed =~= pushed);
    law_replay_is_newest_first(connected, stored, k);
}

/// Live, nothing leaves the store: what the phone misses is replayed on its next connection.
pub proof fn law_live_keeps_the_points(connected: bool, stored: Seq<DataPoint>)
    ensures
        (Stage::Serve { connected, feed: Feed::Live }).left(stored) == stored,
{
}

/// A connection is served until the phone is gone and a notification has failed, in either order,
/// and then the recorder advertises again; a failure before that does so at once.
pub proof fn law_always_advertises_again(feed: Feed)
    ensures
        (Stage::Serve { connected: true, feed }).after(PeripheralEvent::Disconnected).after(
            PeripheralEvent::Notified(false),
        ) == Stage::Advertise,
        (Stage::Serve { connected: true, feed }).after(PeripheralEvent::Notified(false)).after(
            PeripheralEvent::Disconnected,
        ) == Stage::Advertise,
        Stage::Advertise.after(PeripheralEvent::Advertised(false)) == Stage::Advertise,
        Stage::Accept.after(PeripheralEvent::Accepted(false)) == Stage::Advertise,
        Stage::Attach.after(PeripheralEvent::Attached(false)) == Stage::Advertise,
{
}

/// A notification that was sent changes nothing: a connection is served on just as it was, and no
/// other stage is left. (Serving that has ended both ways is never rested in.)
pub proof fn law_sent_notifications_change_nothing(stage: Stage)
    requires
        stage != (Stage::Serve { connected: false, feed: Feed::Stopped }),
    ensures
        stage.after(PeripheralEvent::Notified(true)) == stage,
{
}

/// However many notifications are sent, none of them ends the feed or the connection.
pub proof fn law_feed_lasts(connected: bool, feed: Feed, sent: nat)
    requires
        connected || feed != Feed::Stopped,
    ensures
        after_sent(Stage::Serve { connected, feed }, sent) == (Stage::Serve { connected, feed }),
    decreases sent,
{
    if sent > 0 {
        law_feed_lasts(connected, feed, (sent - 1) as nat);
        law_sent_notifications_change_nothing(Stage::Serve { connected, feed });
    }
}

/// The stage after this many notifications that were sent.
pub open spec fn after_sent(stage: Stage, sent: nat) -> Stage
    decreases sent,
{
    if sent == 0 {
        stage
    } else {
        after_sent(stage, (sent - 1) as nat).after(PeripheralEvent::Notified(true))
    }
}

/// A feed is stopped by a notification that failed and by nothing else, but that a live one is
/// stopped too where there is no way to learn of new points. A feed that is stopped stays so, and
/// an event changes no feed to another.
pub proof fn law_only_failures_stop_the_feed(connected: bool, feed: Feed, event: PeripheralEvent)
    requires
        connected || feed != Feed::Stopped,
    ensures
        ({
            let fails = event == PeripheralEvent::Notified(false) || (event
                == PeripheralEvent::NoUpdates && feed == Feed::Live);
            let gone = event == PeripheralEvent::Disconnected;
            match (Stage::Serve { connected, feed }).after(event) {
                Stage::Serve { connected: c, feed: f } => {
                    &&& c == (connected && !gone)
                    &&& f == (if fails { Feed::Stopped } else { feed })
                    &&& c || f != Feed::Stopped
                },
                next => {
                    &&& next == Stage::Advertise
                    &&& !connected || gone
                    &&& feed == Feed::Stopped || fails
                },
            }
        }),
{
}

/// Serving ends where both sides of it have, and not before: from then on the recorder advertises,
/// and is never left with neither a phone nor a feed.
pub proof fn law_serving_ends_with_both(stage: Stage, event: PeripheralEvent)
    ensures
        stage.after(event) != (Stage::Serve { connected: false, feed: Feed::Stopped }),
        stage == (Stage::Serve { connected: true, feed: Feed::Stopped }) ==> (stage.after(event)
            == Stage::Advertise <==> event == PeripheralEvent::Disconnected),
        stage == (Stage::Serve { connected: false, feed: Feed::Replay }) ==> (stage.after(event)
            == Stage::Advertise <==> event == PeripheralEvent::Notified(false)),
        stage == (Stage::Serve { connected: false, feed: Feed::Live }) ==> (stage.after(event)
            == Stage::Advertise <==> event == PeripheralEvent::Notified(false) || event
            == PeripheralEvent::NoUpdates),
        stage matches Stage::Serve { connected: true, feed } ==> feed == Feed::Stopped
            || stage.after(event) is Serve,
{
}

/// The way to the phone: each step that succeeds leads to the next and each that fails back to
/// advertising, and a connection that is served starts with the replay. What belongs to another
/// step changes nothing.
pub proof fn law_the_way_to_the_phone(ok: bool, event: PeripheralEvent)
    ensures
        Stage::Advertise.after(PeripheralEvent::Advertised(ok)) == (if ok {
            Stage::Accept
        } else {
            Stage::Advertise
        }),
        Stage::Accept.after(PeripheralEvent::Accepted(ok)) == (if ok {
            Stage::Attach
        } else {
            Stage::Advertise
        }),
        Stage::Attach.after(PeripheralEvent::Attached(ok)) == (if ok {
            Stage::Serve { connected: true, feed: Feed::Replay }
        } else {
            Stage::Advertise
        }),
        !(event is Advertised) ==> Stage::Advertise.after(event) == Stage::Advertise,
        !(event is Accepted) ==> Stage::Accept.after(event) == Stage::Accept,
        !(event is Attached) ==> Stage::Attach.after(event) == Stage::Attach,
{
}

/// Live, each point that is stored is the one that is sent: whatever the store holds and however
/// full it is, the newest goes out and the feed stays live. An empty store sends nothing.
pub proof fn law_live_sends_what_was_stored(
    connected: bool,
    stored: Seq<DataPoint>,
    point: DataPoint,
)
    ensures
        ({
            let live = Stage::Serve { connected, feed: Feed::Live };
            let then = store::after_pushes(stored, seq![point]);
            &&& live.payload(then) == Some(point.wire())
            &&& live.left(then) == then
            &&& live.fed(then) == live
            &&& live.payload(Seq::empty()) is None
            &&& live.fed(Seq::empty()) == live
        }),
{
    reveal_with_fuel(store::after_pushes, 2);
    let pushed = seq![point];
    assert(pushed.last() == point);
}

/// Nothing is sent, and nothing leaves the store, but by a feed: not before a connection is
/// served, and not after a notification has failed.
pub proof fn law_nothing_is_sent_without_a_feed(stage: Stage, stored: Seq<DataPoint>)
    requires
        stage is Serve ==> stage->feed == Feed::Stopped,
    ensures
        stage.payload(stored) is None,
        stage.left(stored) == stored,
        stage.fed(stored) == stage,
{
}

} // verus!

use vstd::prelude::*;

verus! {

/// A coordinate of a realtime position: the bit pattern of the IEEE-754
/// single-precision degrees that the feed carries, kept exactly.
pub type CoordinateBits = u32;

/// The part of a realtime trip descriptor that the pipeline reads. An absent
/// field reads as the empty string.
#[derive(Clone, Debug, PartialEq)]
pub struct TripDescriptor {
    pub trip_id: String,
    pub route_id: String,
}

/// The part of a realtime vehicle descriptor that the pipeline reads. An
/// absent id reads as the empty string.
#[derive(Clone, Debug, PartialEq)]
pub struct VehicleDescriptor {
    pub id: String,
}

/// A reported position.
#[derive(Clone, Copy, Debug, PartialEq, Eq, Structural)]
pub struct Position {
    pub latitude: CoordinateBits,
    pub longitude: CoordinateBits,
}

/// One vehicle's report: which vehicle, on which trip, where.
#[derive(Clone, Debug, PartialEq)]
pub struct VehiclePosition {
    pub trip: Option<TripDescriptor>,
    pub vehicle: Option<VehicleDescriptor>,
    pub position: Option<Position>,
}

/// One entity of a realtime feed; only vehicle positions are read.
#[derive(Clone, Debug, PartialEq)]
pub struct FeedEntity {
    pub id: String,
    pub vehicle: Option<VehiclePosition>,
}

/// One decoded realtime feed: its header timestamp (seconds since the
/// epoch) and its entities.
#[derive(Clone, Debug, PartialEq)]
pub struct FeedMessage {
    pub timestamp: u64,
    pub entities: Vec<FeedEntity>,
}

/// Timestamps in strictly increasing order.
pub open spec fn strictly_increasing(s: Seq<u64>) -> bool {
    forall|i: int, j: int| 0 <= i < j < s.len() ==> s[i] < s[j]
}

/// The latest published realtime feed. A feed is published only if it is
/// newer than the one before; the timestamps of all publications are kept
/// as a ghost history.
pub struct FeedCache {
    latest: Option<FeedMessage>,
    history: Ghost<Seq<u64>>,
}

impl FeedCache {
    /// The history is strictly increasing and ends with the latest feed's
    /// timestamp.
    pub closed spec fn wf(&self) -> bool {
        &&& strictly_increasing(self.history@)
        &&& match self.latest {
            None => self.history@.len() == 0,
            Some(f) => self.history@.len() > 0 && self.history@.last() == f.timestamp,
        }
    }

    /// The latest published feed.
    pub closed spec fn latest_view(&self) -> Option<FeedMessage> {
        self.latest
    }

    /// The timestamps of every feed published so far, in order.
    pub closed spec fn published(&self) -> Seq<u64> {
        self.history@
    }

    /// Whether a feed with timestamp `ts` would be published.
    pub open spec fn accepts(&self, ts: u64) -> bool {
        match self.latest_view() {
            None => true,
            Some(f) => ts > f.timestamp,
        }
    }

    /// An empty cache.
    pub fn new() -> (r: Self)
        ensures
            r.wf(),
            r.latest_view() is None,
            r.published() == Seq::<u64>::empty(),
    {
        FeedCache { latest: None, history: Ghost(Seq::empty()) }
    }

    /// The latest published feed.
    pub fn latest(&self) -> (r: Option<&FeedMessage>)
        ensures
            match self.latest_view() {
                Some(f) => r == Some(&f),
                None => r is None,
            },
    {
        match &self.latest {
            Some(f) => Some(f),
            None => None,
        }
    }

    /// Publishes `feed` if its timestamp is newer than the latest one's (or if
    /// none was published); otherwise the feed is discarded. Returns whether
    /// it was published.
    pub fn publish(&mut self, feed: FeedMessage) -> (accepted: bool)
        requires
            old(self).wf(),
        ensures
            final(self).wf(),
            accepted == old(self).accepts(feed.timestamp),
            accepted ==> final(self).latest_view() == Some(feed) && final(self).published()
                == old(self).published().push(feed.timestamp),
            !accepted ==> final(self).latest_view() == old(self).latest_view() && final(self).published()
                == old(self).published(),
    {
        let newer = match &self.latest {
            Some(f) => feed.timestamp > f.timestamp,
            None => true,
        };
        if newer {
            let ghost h = self.history@.push(feed.timestamp);
            proof {
                assert forall|i: int, j: int| 0 <= i < j < h.len() implies h[i] < h[j] by {
                    if j == h.len() - 1 && i < j {
                        assert(h[i] <= self.history@.last());
                    }
                }
            }
            self.latest = Some(feed);
            self.history = Ghost(h);
        }
        newer
    }

    /// Every two feeds published in turn carry strictly increasing
    /// timestamps.
    pub proof fn lemma_published_in_order(&self)
        requires
            self.wf(),
        ensures
            strictly_increasing(self.published()),
    {
    }
}

} // verus!

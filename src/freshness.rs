use vstd::prelude::*;
use vstd::string::*;

use crate::csv_table::opt_string_view;

verus! {

/// The instant an HTTP date names, in whole seconds since the epoch.
pub uninterp spec fn rfc2822_seconds(s: Seq<char>) -> Option<i64>;

/// Relies on chrono's `DateTime::parse_from_rfc2822` and `timestamp`: the
/// seconds since the epoch of an RFC 2822 date, or `None` where the text is
/// not one. Depends on the text alone.
#[verifier::external_body]
fn parse_http_date(s: &str) -> (r: Option<i64>)
    ensures
        r == rfc2822_seconds(s@),
{
    chrono::DateTime::parse_from_rfc2822(s).ok().map(|d| d.timestamp())
}

/// The validators of a schedule response: `Last-Modified` (seconds since
/// the epoch) and `ETag`.
#[derive(Clone, Debug, PartialEq)]
pub struct ScheduleHeaders {
    pub last_modified: Option<i64>,
    pub etag: Option<String>,
}

impl ScheduleHeaders {
    /// Reads the validators from the raw header values; a `Last-Modified`
    /// that is not an RFC 2822 date counts as absent.
    pub fn from_header_values(last_modified: Option<&str>, etag: Option<&str>) -> (r: Self)
        ensures
            r.last_modified == match last_modified {
                Some(s) => rfc2822_seconds(s@),
                None => None,
            },
            opt_string_view(r.etag) == match etag {
                Some(s) => Some(s@),
                None => None::<Seq<char>>,
            },
    {
        let last_modified = match last_modified {
            Some(s) => parse_http_date(s),
            None => None,
        };
        let etag = match etag {
            Some(s) => Some(String::from_str(s)),
            None => None,
        };
        ScheduleHeaders { last_modified, etag }
    }
}

/// Whether a response with validators `new` may hold a newer schedule than
/// the one last accepted with `last`: always when either `Last-Modified` is
/// unknown, else when it is strictly newer or the `ETag` differs.
pub open spec fn fresh(last: Option<ScheduleHeaders>, new: ScheduleHeaders) -> bool {
    match last {
        None => true,
        Some(l) => match (l.last_modified, new.last_modified) {
            (Some(a), Some(b)) => b > a || opt_string_view(new.etag) != opt_string_view(l.etag),
            _ => true,
        },
    }
}

fn same_etag(a: &Option<String>, b: &Option<String>) -> (r: bool)
    ensures
        r == (opt_string_view(*a) == opt_string_view(*b)),
{
    match (a, b) {
        (Some(x), Some(y)) => *x == *y,
        (None, None) => true,
        _ => false,
    }
}

/// Decides whether a response may hold a newer schedule.
pub fn is_fresh(last: &Option<ScheduleHeaders>, new: &ScheduleHeaders) -> (r: bool)
    ensures
        r == fresh(*last, *new),
{
    match last {
        None => true,
        Some(l) => match (l.last_modified, new.last_modified) {
            (Some(a), Some(b)) => b > a || !same_etag(&new.etag, &l.etag),
            _ => true,
        },
    }
}

/// What the schedule fetcher does with a response.
#[derive(Clone, Copy, Debug, PartialEq, Eq, Structural)]
pub enum FetchAction {
    /// The schedule is unchanged: end the tick.
    Skip,
    /// Read the body and parse it.
    Parse,
}

/// The schedule fetcher's decisions: whether to parse a response, what to
/// remember, and how long to sleep before the next tick.
pub struct ScheduleFetcher {
    remembered: Option<ScheduleHeaders>,
    interval_ms: u64,
}

impl ScheduleFetcher {
    /// The validators of the last schedule that was parsed and published.
    pub closed spec fn remembered_view(&self) -> Option<ScheduleHeaders> {
        self.remembered
    }

    pub closed spec fn interval_view(&self) -> u64 {
        self.interval_ms
    }

    /// A fetcher that has accepted nothing yet.
    pub fn new(interval_ms: u64) -> (r: Self)
        ensures
            r.remembered_view() is None,
            r.interval_view() == interval_ms,
    {
        ScheduleFetcher { remembered: None, interval_ms }
    }

    /// Parse the response only where it may hold a newer schedule.
    pub fn decide(&self, headers: &ScheduleHeaders) -> (r: FetchAction)
        ensures
            r == (if fresh(self.remembered_view(), *headers) {
                FetchAction::Parse
            } else {
                FetchAction::Skip
            }),
    {
        if is_fresh(&self.remembered, headers) {
            FetchAction::Parse
        } else {
            FetchAction::Skip
        }
    }

    /// After a schedule was parsed and published: remember its validators
    /// and sleep a full interval.
    pub fn on_published(&mut self, headers: ScheduleHeaders) -> (delay_ms: u64)
        ensures
            final(self).remembered_view() == Some(headers),
            final(self).interval_view() == old(self).interval_view(),
            delay_ms == old(self).interval_view(),
    {
        self.remembered = Some(headers);
        self.interval_ms
    }

    /// After an unchanged schedule was skipped: sleep a full interval.
    pub fn on_skipped(&self) -> (delay_ms: u64)
        ensures
            delay_ms == self.interval_view(),
    {
        self.interval_ms
    }

    /// After a failed fetch or parse: nothing is remembered, and the next
    /// try comes after a fifth of the interval.
    pub fn on_failed(&self) -> (delay_ms: u64)
        ensures
            delay_ms == self.interval_view() / 5,
    {
        self.interval_ms / 5
    }

    /// A response with the same validators as the schedule last published,
    /// `Last-Modified` included, is not parsed again.
    pub proof fn lemma_unchanged_validators_skip(&self, headers: ScheduleHeaders)
        requires
            self.remembered_view() == Some(headers),
            headers.last_modified is Some,
        ensures
            !fresh(self.remembered_view(), headers),
    {
    }
}

} // verus!

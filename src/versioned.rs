use vstd::prelude::*;

verus! {

/// The wire envelope `{v, ts?, d}`: a payload schema version, the time of the
/// snapshot the payload was taken from (seconds since the epoch), and the payload.
pub struct Versioned<T> {
    pub version: u64,
    pub timestamp: Option<u64>,
    pub data: T,
}

impl<T> Versioned<T> {
    /// An envelope without a timestamp.
    pub fn new(version: u64, data: T) -> (r: Self)
        ensures
            r.version == version,
            r.timestamp == None::<u64>,
            r.data == data,
    {
        Self { version, timestamp: None, data }
    }

    /// An envelope stamped with the current time.
    pub fn new_now(version: u64, data: T) -> (r: Self)
        ensures
            r.version == version,
            r.timestamp.is_some(),
            r.data == data,
    {
        Self::new(version, data).with_timestamp_now()
    }

    /// An envelope stamped with the given time.
    pub fn new_with_timestamp(version: u64, timestamp: u64, data: T) -> (r: Self)
        ensures
            r.version == version,
            r.timestamp == Some(timestamp),
            r.data == data,
    {
        Self { version, timestamp: Some(timestamp), data }
    }

    /// The same envelope, stamped with the given time.
    pub fn with_timestamp(self, timestamp: u64) -> (r: Self)
        ensures
            r.version == self.version,
            r.timestamp == Some(timestamp),
            r.data == self.data,
    {
        Self { version: self.version, timestamp: Some(timestamp), data: self.data }
    }

    /// The same envelope, stamped with the current time.
    pub fn with_timestamp_now(self) -> (r: Self)
        ensures
            r.version == self.version,
            r.timestamp.is_some(),
            r.data == self.data,
    {
        let now = timestamp_now();
        self.with_timestamp(now)
    }
}

/// Relies on std's `SystemTime::now` and `duration_since(UNIX_EPOCH)`: whole
/// seconds since the epoch, or 0 for a clock set before it. Nothing is promised
/// of the value: it depends on the clock.
#[verifier::external_body]
fn timestamp_now() -> (r: u64) {
    std::time::SystemTime::now()
        .duration_since(std::time::UNIX_EPOCH)
        .map(|d| d.as_secs())
        .unwrap_or(0)
}

} // verus!

//! Instants of UTC time, held as seconds and nanoseconds since the Unix epoch.

use vstd::prelude::*;

verus! {

/// The JSON text that `serde_json` writes for the `chrono` UTC instant lying
/// `secs` seconds and `nanos` nanoseconds after the Unix epoch: a quoted
/// RFC 3339 date and time ending in `Z`. `None` where `chrono` has no such instant.
pub uninterp spec fn instant_json(secs: i64, nanos: u32) -> Option<Seq<char>>;

/// An instant that `chrono` can represent.
#[derive(Clone, Copy, Debug, PartialEq, Eq, Structural)]
pub struct Timestamp {
    secs: i64,
    nanos: u32,
}

/// Reads the clock with `chrono::Utc::now` and splits the instant with
/// `DateTime::timestamp` and `DateTime::timestamp_subsec_nanos`. Every instant
/// of `chrono` is rebuilt by `DateTime::from_timestamp` from these two numbers,
/// so it has a JSON text. The call stops the program if the clock is set before 1970.
#[verifier::external_body]
fn clock_now() -> (reading: (i64, u32))
    ensures
        instant_json(reading.0, reading.1) is Some,
{
    let instant = chrono::Utc::now();
    (instant.timestamp(), instant.timestamp_subsec_nanos())
}

/// Builds the instant with `chrono::DateTime::from_timestamp` and writes it
/// with `serde_json::to_string`; `None` where `from_timestamp` refuses the numbers.
#[verifier::external_body]
fn instant_to_json(secs: i64, nanos: u32) -> (text: Option<String>)
    ensures
        match text {
            Some(t) => instant_json(secs, nanos) == Some(t@),
            None => instant_json(secs, nanos) is None,
        },
{
    match chrono::DateTime::from_timestamp(secs, nanos) {
        Some(instant) => serde_json::to_string(&instant).ok(),
        None => None,
    }
}

impl Timestamp {
    #[verifier::type_invariant]
    spec fn representable(self) -> bool {
        instant_json(self.secs, self.nanos) is Some
    }

    /// Whole seconds since the Unix epoch.
    pub closed spec fn seconds(self) -> i64 {
        self.secs
    }

    /// Nanoseconds past the whole second.
    pub closed spec fn nanoseconds(self) -> u32 {
        self.nanos
    }

    /// The JSON text of this instant.
    pub open spec fn json_text(self) -> Seq<char> {
        instant_json(self.seconds(), self.nanoseconds()).unwrap()
    }

    /// The current instant, as the clock gives it. Whatever the clock says,
    /// it is an instant that has a JSON text.
    pub fn now() -> (time: Timestamp)
        ensures
            instant_json(time.seconds(), time.nanoseconds()) is Some,
    {
        let reading = clock_now();
        Timestamp { secs: reading.0, nanos: reading.1 }
    }

    /// The instant `secs` seconds and `nanos` nanoseconds after the epoch,
    /// if there is one.
    pub fn new(secs: i64, nanos: u32) -> (made: Option<Timestamp>)
        ensures
            made is Some <==> instant_json(secs, nanos) is Some,
            made is Some ==> made.unwrap().seconds() == secs && made.unwrap().nanoseconds()
                == nanos,
    {
        match instant_to_json(secs, nanos) {
            Some(_) => Some(Timestamp { secs, nanos }),
            None => None,
        }
    }

    /// Whole seconds since the Unix epoch.
    pub fn timestamp(&self) -> (secs: i64)
        ensures
            secs == self.seconds(),
    {
        self.secs
    }

    /// Nanoseconds past the whole second.
    pub fn timestamp_subsec_nanos(&self) -> (nanos: u32)
        ensures
            nanos == self.nanoseconds(),
    {
        self.nanos
    }

    /// Writes the instant as JSON.
    pub fn to_json(&self) -> (text: String)
        ensures
            text@ == self.json_text(),
    {
        proof {
            use_type_invariant(self);
        }
        match instant_to_json(self.secs, self.nanos) {
            Some(text) => text,
            None => String::new(),
        }
    }

    /// Two instants with the same seconds and nanoseconds are the same instant.
    pub proof fn lemma_same_reading(self, other: Timestamp)
        requires
            self.seconds() == other.seconds(),
            self.nanoseconds() == other.nanoseconds(),
        ensures
            self == other,
    {
    }
}

} // verus!

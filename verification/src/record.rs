//! Geolocation records and the outcome of one lookup.
//!
//! A lookup asks the geolocation service about one address. It delivers at
//! most one record: exactly when a response arrived, its status was a
//! success, and its body had the shape of a record. Every other outcome is
//! dropped without a trace.

use vstd::prelude::*;

verus! {

/// An angle in degrees, carried as the bit pattern of an IEEE 754 binary64
/// number. The library never computes with coordinates; it hands them on
/// unchanged, so the bit pattern is all it keeps.
#[derive(Clone, Copy, Debug, PartialEq, Eq, Structural)]
pub struct Degrees {
    pub bits: u64,
}

impl Degrees {
    /// The angle with the given bit pattern.
    pub fn from_bits(bits: u64) -> (d: Degrees)
        ensures
            d.bits == bits,
    {
        Degrees { bits }
    }

    /// The bit pattern of the angle.
    pub fn to_bits(&self) -> (bits: u64)
        ensures
            bits == self.bits,
    {
        self.bits
    }
}

/// What the geolocation service knows about one address.
#[derive(Clone, Debug, PartialEq, Eq)]
pub struct GeoRecord {
    pub ip: String,
    pub latitude: Degrees,
    pub longitude: Degrees,
    pub org: Option<String>,
    pub subdivision: Option<String>,
    pub subdivision2: Option<String>,
    pub city: Option<String>,
    pub country: Option<String>,
}

/// The mathematical content of a [`GeoRecord`].
pub struct GeoRecordView {
    pub ip: Seq<char>,
    pub latitude: Degrees,
    pub longitude: Degrees,
    pub org: Option<Seq<char>>,
    pub subdivision: Option<Seq<char>>,
    pub subdivision2: Option<Seq<char>>,
    pub city: Option<Seq<char>>,
    pub country: Option<Seq<char>>,
}

/// The content of an optional text.
pub open spec fn text_view(text: Option<String>) -> Option<Seq<char>> {
    match text {
        Some(t) => Some(t@),
        None => None,
    }
}

impl View for GeoRecord {
    type V = GeoRecordView;

    open spec fn view(&self) -> GeoRecordView {
        GeoRecordView {
            ip: self.ip@,
            latitude: self.latitude,
            longitude: self.longitude,
            org: text_view(self.org),
            subdivision: text_view(self.subdivision),
            subdivision2: text_view(self.subdivision2),
            city: text_view(self.city),
            country: text_view(self.country),
        }
    }
}

/// The content of an optional record.
pub open spec fn record_view(record: Option<GeoRecord>) -> Option<GeoRecordView> {
    match record {
        Some(r) => Some(r@),
        None => None,
    }
}

/// The contents of a sequence of records, in order.
pub open spec fn record_views(records: Seq<GeoRecord>) -> Seq<GeoRecordView> {
    records.map_values(|r: GeoRecord| r@)
}

/// How one lookup ended.
#[derive(Clone, Debug, PartialEq, Eq)]
pub enum LookupOutcome {
    /// No response arrived: the request could not be sent or the connection
    /// failed.
    TransportFailed,
    /// A response arrived with this HTTP status. `body` is the record that the
    /// body held, or `None` where the body did not have the shape of a record.
    Responded { status: u16, body: Option<GeoRecord> },
}

/// The mathematical content of a [`LookupOutcome`].
pub enum LookupOutcomeView {
    TransportFailed,
    Responded { status: u16, body: Option<GeoRecordView> },
}

impl View for LookupOutcome {
    type V = LookupOutcomeView;

    open spec fn view(&self) -> LookupOutcomeView {
        match *self {
            LookupOutcome::TransportFailed => LookupOutcomeView::TransportFailed,
            LookupOutcome::Responded { status, body } => LookupOutcomeView::Responded {
                status,
                body: record_view(body),
            },
        }
    }
}

/// Whether an HTTP status reports success: the codes from 200 to 299.
pub open spec fn is_success(status: u16) -> bool {
    200 <= status <= 299
}

/// The record that a lookup with this outcome delivers, if any.
pub open spec fn delivered(outcome: LookupOutcomeView) -> Option<GeoRecordView> {
    match outcome {
        LookupOutcomeView::TransportFailed => None,
        LookupOutcomeView::Responded { status, body } => if is_success(status) {
            body
        } else {
            None
        },
    }
}

/// Decides [`is_success`].
pub fn status_is_success(status: u16) -> (ok: bool)
    ensures
        ok == is_success(status),
{
    200 <= status && status <= 299
}

/// Settles a lookup: hands out the record to deliver, and nothing for a
/// lookup that failed in any way.
pub fn record_of(outcome: LookupOutcome) -> (record: Option<GeoRecord>)
    ensures
        record_view(record) == delivered(outcome@),
{
    match outcome {
        LookupOutcome::TransportFailed => None,
        LookupOutcome::Responded { status, body } => {
            if status_is_success(status) {
                body
            } else {
                None
            }
        },
    }
}

} // verus!

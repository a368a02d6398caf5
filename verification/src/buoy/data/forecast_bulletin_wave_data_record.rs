//! The header of a buoy forecast bulletin, read as the point bulletins of
//! `crate::data::forecast_cbulletin_wave_data_record` are, with the station
//! name as matched and the model run kept as plain date fields.

use vstd::prelude::*;

use crate::buoy::data::date_record::DateRecord;
use crate::buoy::data::parseable_data_record::DataRecordParsingError;
use crate::data::forecast_cbulletin_wave_data_record::{
    bulletin_header, lettered_coordinate, spec_bulletin_header, spec_lettered_coordinate,
    HeaderStop,
};
use crate::data::gefs_bulletin_wave_data_record::LocationText;
use crate::location::{Coordinate, Location};

verus! {

#[derive(Clone, Debug)]
pub struct ForecastBulletinWaveRecordMetadata {
    pub location: Location,
    pub model_run_date: DateRecord,
}

/// The header of a buoy bulletin: the station and the model run's year,
/// month, day and hour, each an `i32`, at minute zero.
pub open spec fn spec_bulletin_metadata(s: Seq<char>) -> Result<(LocationText, DateRecord), HeaderStop> {
    match spec_bulletin_header(s, i32::MIN as int, i32::MAX as int) {
        Err(e) => Err(e),
        Ok((loc, (y, mo, d, h))) => Ok(
            (
                loc,
                DateRecord {
                    year: y as i32,
                    month: mo as i32,
                    day: d as i32,
                    hour: h as i32,
                    minute: 0,
                },
            ),
        ),
    }
}

/// The coordinate text `raw` as read by `parse_latitude` or
/// `parse_longitude`.
pub open spec fn lettered(raw: Seq<char>, negative_letter: char, what: Seq<char>, r: Result<Coordinate, DataRecordParsingError>) -> bool {
    match (r, spec_lettered_coordinate(raw, negative_letter, what)) {
        (Ok(c), Ok(p)) => c.view_pair() == p,
        (Err(e), Err(HeaderStop::Failure(m))) => e matches DataRecordParsingError::ParseFailure(t) && t@ == m,
        _ => false,
    }
}

/// A latitude such as `40.98N`; negative when the text holds `S`.
pub fn parse_latitude(raw: &str) -> (r: Result<Coordinate, DataRecordParsingError>)
    requires
        raw@.len() > 0,
        (raw@.last() as u32) < 128,
    ensures
        lettered(raw@, 'S', "latitude"@, r),
{
    match lettered_coordinate(raw, 'S', "latitude") {
        Ok(c) => Ok(c),
        Err(Some(m)) => Err(DataRecordParsingError::ParseFailure(m)),
        Err(None) => Err(DataRecordParsingError::InvalidData),
    }
}

/// A longitude such as `71.12W`; negative when the text holds `W`.
pub fn parse_longitude(raw: &str) -> (r: Result<Coordinate, DataRecordParsingError>)
    requires
        raw@.len() > 0,
        (raw@.last() as u32) < 128,
    ensures
        lettered(raw@, 'W', "longitude"@, r),
{
    match lettered_coordinate(raw, 'W', "longitude") {
        Ok(c) => Ok(c),
        Err(Some(m)) => Err(DataRecordParsingError::ParseFailure(m)),
        Err(None) => Err(DataRecordParsingError::InvalidData),
    }
}

/// `m` is the header `t` as read.
pub open spec fn bulletin_metadata_is(m: ForecastBulletinWaveRecordMetadata, t: (LocationText, DateRecord)) -> bool {
    &&& (m.location.name@, m.location.latitude.view_pair(), m.location.longitude.view_pair()) == t.0
    &&& m.model_run_date == t.1
}

impl ForecastBulletinWaveRecordMetadata {
    /// Reads the header of a bulletin; see `spec_bulletin_metadata`.
    pub fn from_text(s: &str) -> (r: Result<Self, DataRecordParsingError>)
        requires
            spec_bulletin_metadata(s@) != Err::<(LocationText, DateRecord), HeaderStop>(HeaderStop::Panic),
        ensures
            match (r, spec_bulletin_metadata(s@)) {
                (Ok(m), Ok(t)) => bulletin_metadata_is(m, t),
                (Err(e), Err(HeaderStop::Failure(msg))) => e matches DataRecordParsingError::ParseFailure(t) && t@ == msg,
                _ => false,
            },
    {
        match Self::try_from_text(s) {
            Some(r) => r,
            None => Err(DataRecordParsingError::InvalidData),
        }
    }

    /// As `from_text`, but `None` on the headers that make it panic.
    pub fn try_from_text(s: &str) -> (r: Option<Result<Self, DataRecordParsingError>>)
        ensures
            match (r, spec_bulletin_metadata(s@)) {
                (None, Err(HeaderStop::Panic)) => true,
                (Some(Ok(m)), Ok(t)) => bulletin_metadata_is(m, t),
                (Some(Err(e)), Err(HeaderStop::Failure(msg))) => e matches DataRecordParsingError::ParseFailure(t) && t@ == msg,
                _ => false,
            },
    {
        match bulletin_header(s, i32::MIN as i64, i32::MAX as i64) {
            Ok(((name, latitude, longitude), (y, mo, d, h))) => Some(
                Ok(
                    ForecastBulletinWaveRecordMetadata {
                        location: Location::new(latitude, longitude, name),
                        model_run_date: DateRecord {
                            year: y as i32,
                            month: mo as i32,
                            day: d as i32,
                            hour: h as i32,
                            minute: 0,
                        },
                    },
                ),
            ),
            Err(Some(m)) => Some(Err(DataRecordParsingError::ParseFailure(m))),
            Err(None) => None,
        }
    }
}

} // verus!

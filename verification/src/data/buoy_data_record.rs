//! A buoy observation of one kind, read from the first row of a standard
//! meteorological file or of a detailed wave summary file.

use vstd::prelude::*;

use crate::data::meteorological_data_record::{
    meteorological_record_is, meteorological_rows, MeteorologicalDataRecord,
    MeteorologicalDataRecordCollection,
};
use crate::data::spectral_wave_data_record::SpectralWaveDataRecord;
use crate::data::wave_data_record::{
    wave_record_is, wave_rows, WaveDataRecord, WaveDataRecordCollection,
};

verus! {

/// One observation of a buoy.
#[derive(Clone, Debug)]
pub enum BuoyDataRecord {
    Latest(MeteorologicalDataRecord, WaveDataRecord),
    Meteorological(MeteorologicalDataRecord),
    Wave(WaveDataRecord),
    SprectralWave(SpectralWaveDataRecord),
}

/// What the first row of a standard meteorological file gives, once its
/// rows are `rows`: nothing for a file without rows.
pub open spec fn first_meteorological(r: Option<BuoyDataRecord>, rows: Seq<Seq<Seq<char>>>) -> bool {
    if rows.len() == 0 {
        r is None
    } else {
        r matches Some(BuoyDataRecord::Meteorological(rec)) && meteorological_record_is(rec, rows[0])
    }
}

/// What the first row of a detailed wave summary file gives, once its rows
/// are `rows`: nothing for a file without rows.
pub open spec fn first_wave(r: Option<BuoyDataRecord>, rows: Seq<Seq<Seq<char>>>) -> bool {
    if rows.len() == 0 {
        r is None
    } else {
        r matches Some(BuoyDataRecord::Wave(rec)) && wave_record_is(rec, rows[0])
    }
}

impl BuoyDataRecord {
    /// The observation in the first row of a standard meteorological file.
    /// Every row is read, as the file's records are.
    pub fn parse_from_meteorological_data(raw_data: &str) -> (r: Option<BuoyDataRecord>)
        requires
            meteorological_rows(raw_data@) is Some,
        ensures
            first_meteorological(r, meteorological_rows(raw_data@)->0),
    {
        match Self::try_parse_from_meteorological_data(raw_data) {
            Some(r) => r,
            None => None,
        }
    }

    /// As `parse_from_meteorological_data`, but `None` where reading a row
    /// would panic.
    pub fn try_parse_from_meteorological_data(raw_data: &str) -> (r: Option<Option<BuoyDataRecord>>)
        ensures
            match (r, meteorological_rows(raw_data@)) {
                (None, None) => true,
                (Some(first), Some(rows)) => first_meteorological(first, rows),
                _ => false,
            },
    {
        let collection = MeteorologicalDataRecordCollection::from_data(raw_data);
        match collection.try_records() {
            None => None,
            Some(records) => {
                if records.len() == 0 {
                    Some(None)
                } else {
                    let mut records = records;
                    Some(Some(BuoyDataRecord::Meteorological(records.remove(0))))
                }
            },
        }
    }

    /// The observation in the first row of a detailed wave summary file.
    /// Every row is read, as the file's records are.
    pub fn parse_from_detailed_wave_data(raw_data: &str) -> (r: Option<BuoyDataRecord>)
        requires
            wave_rows(raw_data@) is Some,
        ensures
            first_wave(r, wave_rows(raw_data@)->0),
    {
        match Self::try_parse_from_detailed_wave_data(raw_data) {
            Some(r) => r,
            None => None,
        }
    }

    /// As `parse_from_detailed_wave_data`, but `None` where reading a row
    /// would panic.
    pub fn try_parse_from_detailed_wave_data(raw_data: &str) -> (r: Option<Option<BuoyDataRecord>>)
        ensures
            match (r, wave_rows(raw_data@)) {
                (None, None) => true,
                (Some(first), Some(rows)) => first_wave(first, rows),
                _ => false,
            },
    {
        let collection = WaveDataRecordCollection::from_data(raw_data);
        match collection.try_records() {
            None => None,
            Some(records) => {
                if records.len() == 0 {
                    Some(None)
                } else {
                    let mut records = records;
                    Some(Some(BuoyDataRecord::Wave(records.remove(0))))
                }
            },
        }
    }
}

} // verus!

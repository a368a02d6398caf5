//! Rows of the NDBC latest observations file: station, position, the date
//! as year, month, day, hour and minute, then wind, waves, pressure,
//! temperatures, visibility and tide.

use vstd::prelude::*;

use crate::data::delimited::{
    delimited_records, lemma_readable_rows_prefix_none, nonempty_row, read_delimited,
    readable_rows, record_views,
};
use crate::data::parseable_data_record::{row_text, DataRecordParsingError, ParseableDataRecord};
use crate::data::row_columns::{
    as_written, columns_date, measure, measured_from, spec_columns_date, written_as,
};
use crate::dimensional_data::DimensionalData;
use crate::text::{chars_of, check_float, float_result, push_str, string_views};
use crate::time::UtcDateTime;
use crate::units::Unit;
use crate::buoy_station::BuoyStation;
use crate::text::copy_string;

verus! {

/// A row of the latest observations file. The position and measurements
/// are held as the float text they were read as; direction columns are
/// held as written.
#[derive(Clone, Debug)]
pub struct LatestObsDataRecord {
    pub station_id: String,
    pub latitude: String,
    pub longitude: String,
    pub date: UtcDateTime,
    pub wind_direction: DimensionalData<String>,
    pub wind_speed: DimensionalData<String>,
    pub wind_gust_speed: DimensionalData<String>,
    pub wave_height: DimensionalData<String>,
    pub dominant_wave_period: DimensionalData<String>,
    pub average_wave_period: DimensionalData<String>,
    pub mean_wave_direction: DimensionalData<String>,
    pub air_pressure: DimensionalData<String>,
    pub air_pressure_tendency: DimensionalData<String>,
    pub air_temperature: DimensionalData<String>,
    pub water_temperature: DimensionalData<String>,
    pub dewpoint_temperature: DimensionalData<String>,
    pub visibility: DimensionalData<String>,
    pub tide: DimensionalData<String>,
}

/// The rows that reading as a record does not panic on: 22 columns, a float position in columns 1 and 2, and a
/// calendar date in columns 3 to 7.
pub open spec fn latest_obs_row_readable(row: Seq<Seq<char>>) -> bool {
    &&& row.len() >= 22
    &&& float_result(row[1]) is Ok
    &&& float_result(row[2]) is Ok
    &&& spec_columns_date(row, 3) is Some
}

/// `rec` is what the row `row` gives.
pub open spec fn latest_obs_record_is(rec: LatestObsDataRecord, row: Seq<Seq<char>>) -> bool {
    &&& rec.station_id@ == row[0]
    &&& rec.latitude@ == row[1]
    &&& rec.longitude@ == row[2]
    &&& spec_columns_date(row, 3) == Some(rec.date)
    &&& written_as(rec.wind_direction, row[8], "wind direction"@, Unit::Degrees)
    &&& measured_from(rec.wind_speed, row[9], "wind speed"@, Unit::MetersPerSecond)
    &&& measured_from(rec.wind_gust_speed, row[10], "wind gust speed"@, Unit::MetersPerSecond)
    &&& measured_from(rec.wave_height, row[11], "wave height"@, Unit::Meters)
    &&& measured_from(rec.dominant_wave_period, row[12], "dominant wave period"@, Unit::Seconds)
    &&& measured_from(rec.average_wave_period, row[13], "average wave period"@, Unit::Seconds)
    &&& written_as(rec.mean_wave_direction, row[14], "mean wave direction"@, Unit::Degrees)
    &&& measured_from(rec.air_pressure, row[15], "air pressure"@, Unit::HectaPascal)
    &&& measured_from(rec.air_pressure_tendency, row[16], "air pressure tendency"@, Unit::HectaPascal)
    &&& measured_from(rec.air_temperature, row[17], "air temperature"@, Unit::Celsius)
    &&& measured_from(rec.water_temperature, row[18], "water temperature"@, Unit::Celsius)
    &&& measured_from(rec.dewpoint_temperature, row[19], "dewpoint temperature"@, Unit::Celsius)
    &&& measured_from(rec.visibility, row[20], ""@, Unit::NauticalMiles)
    &&& measured_from(rec.tide, row[21], "tide"@, Unit::Feet)
}

impl ParseableDataRecord for LatestObsDataRecord {
    type Metadata = ();

    open spec fn row_readable(row: Seq<Seq<char>>) -> bool {
        latest_obs_row_readable(row)
    }

    fn from_data_row(metadata: Option<&()>, row: &Vec<&str>) -> (r: Result<LatestObsDataRecord, DataRecordParsingError>)
        ensures
            r matches Ok(rec) && latest_obs_record_is(rec, row_text(row@)),
    {
        let ghost text = row_text(row@);
        proof {
            assert forall|i: int| 0 <= i < row.len() implies #[trigger] text[i] == row@[i]@ by {}
        }
        let mut station_id = String::new();
        push_str(&mut station_id, row[0]);
        let mut latitude = String::new();
        push_str(&mut latitude, row[1]);
        let mut longitude = String::new();
        push_str(&mut longitude, row[2]);
        let date = match columns_date(row, 3) {
            Some(d) => d,
            None => {
                return Err(DataRecordParsingError::InvalidData);
            },
        };
        Ok(
            LatestObsDataRecord {
                station_id,
                latitude,
                longitude,
                date,
                wind_direction: as_written(row[8], "wind direction", Unit::Degrees),
                wind_speed: measure(row[9], "wind speed", Unit::MetersPerSecond),
                wind_gust_speed: measure(row[10], "wind gust speed", Unit::MetersPerSecond),
                wave_height: measure(row[11], "wave height", Unit::Meters),
                dominant_wave_period: measure(row[12], "dominant wave period", Unit::Seconds),
                average_wave_period: measure(row[13], "average wave period", Unit::Seconds),
                mean_wave_direction: as_written(row[14], "mean wave direction", Unit::Degrees),
                air_pressure: measure(row[15], "air pressure", Unit::HectaPascal),
                air_pressure_tendency: measure(row[16], "air pressure tendency", Unit::HectaPascal),
                air_temperature: measure(row[17], "air temperature", Unit::Celsius),
                water_temperature: measure(row[18], "water temperature", Unit::Celsius),
                dewpoint_temperature: measure(row[19], "dewpoint temperature", Unit::Celsius),
                visibility: measure(row[20], "", Unit::NauticalMiles),
                tide: measure(row[21], "tide", Unit::Feet),
            },
        )
    }
}

/// Whether `s` is a float.
fn is_float(s: &str) -> (b: bool)
    ensures
        b == (float_result(s@) is Ok),
{
    let chars = chars_of(s);
    proof {
        assert(chars@.subrange(0, chars.len() as int) =~= chars@);
    }
    check_float(&chars, 0, chars.len()).is_ok()
}

impl LatestObsDataRecord {
    /// The station the observation is from, at the observed position.
    pub fn station(&self) -> (s: BuoyStation)
        ensures
            s.station_id@ == self.station_id@,
            s.latitude@ == self.latitude@,
            s.longitude@ == self.longitude@,
    {
        BuoyStation::new(
            copy_string(&self.station_id),
            copy_string(&self.latitude),
            copy_string(&self.longitude),
        )
    }
}

/// Whether reading `row` as a record does not panic.
fn row_readable_exec(row: &Vec<&str>) -> (b: bool)
    ensures
        b == latest_obs_row_readable(row_text(row@)),
{
    let ghost text = row_text(row@);
    proof {
        assert forall|i: int| 0 <= i < row.len() implies #[trigger] text[i] == row@[i]@ by {}
    }
    if row.len() < 22 {
        return false;
    }
    if !is_float(row[1]) || !is_float(row[2]) {
        return false;
    }
    columns_date(row, 3).is_some()
}

/// The records of the latest observations file: spaces between fields and lines that start
/// with `#` left out.
pub open spec fn latest_obs_file_records(data: Seq<char>) -> Seq<Result<Seq<Seq<char>>, Seq<char>>> {
    delimited_records(data, 32u8, 35u8)
}

/// The rows of a file of the latest observations file records, when reading them does not panic.
pub open spec fn latest_obs_rows(data: Seq<char>) -> Option<Seq<Seq<Seq<char>>>> {
    readable_rows(latest_obs_file_records(data), |row: Seq<Seq<char>>| latest_obs_row_readable(row))
}

/// `recs` are what `rows` give, one for one.
pub open spec fn latest_obs_records_are(recs: Seq<LatestObsDataRecord>, rows: Seq<Seq<Seq<char>>>) -> bool {
    &&& recs.len() == rows.len()
    &&& forall|i: int| 0 <= i < recs.len() ==> latest_obs_record_is(#[trigger] recs[i], rows[i])
}

/// The rows of the latest observations file.
pub struct LatestObsDataRecordCollection<'a> {
    data: &'a str,
}

impl<'a> LatestObsDataRecordCollection<'a> {
    /// The text the records are read from.
    pub closed spec fn text(&self) -> Seq<char> {
        self.data@
    }

    pub fn from_data(data: &'a str) -> (c: Self)
        ensures
            c.text() == data@,
    {
        LatestObsDataRecordCollection { data }
    }

    /// The records of the file, one per row that is read.
    pub fn records(&self) -> (r: Vec<LatestObsDataRecord>)
        requires
            latest_obs_rows(self.text()) is Some,
        ensures
            latest_obs_rows(self.text()) matches Some(rows) && latest_obs_records_are(r@, rows),
    {
        match self.try_records() {
            Some(r) => r,
            None => Vec::new(),
        }
    }

    /// As `records`, but `None` where reading a row would panic.
    pub fn try_records(&self) -> (r: Option<Vec<LatestObsDataRecord>>)
        ensures
            match (r, latest_obs_rows(self.text())) {
                (None, None) => true,
                (Some(v), Some(rows)) => latest_obs_records_are(v@, rows),
                _ => false,
            },
    {
        // ' ' between fields, '#' before comments
        let records = read_delimited(self.data, 32u8, 35u8);
        let ghost rs = latest_obs_file_records(self.text());
        let ghost readable = |row: Seq<Seq<char>>| latest_obs_row_readable(row);
        let mut out: Vec<LatestObsDataRecord> = Vec::new();
        let mut i: usize = 0;
        proof {
            assert(rs.take(0) =~= Seq::<Result<Seq<Seq<char>>, Seq<char>>>::empty());
        }
        while i < records.len()
            invariant
                i <= records.len(),
                rs == record_views(records@),
                rs == latest_obs_file_records(self.text()),
                readable == (|row: Seq<Seq<char>>| latest_obs_row_readable(row)),
                rs.len() == records.len(),
                readable_rows(rs.take(i as int), readable) matches Some(rows) && latest_obs_records_are(out@, rows),
            decreases records.len() - i,
        {
            proof {
                assert(rs.take(i + 1).drop_last() =~= rs.take(i as int));
                assert(rs.take(i + 1).last() == rs[i as int]);
            }
            match &records[i] {
                Err(_) => {},
                Ok(fields) => {
                    let row = nonempty_row(fields);
                    proof {
                        assert(rs[i as int] == Ok::<Seq<Seq<char>>, Seq<char>>(string_views(fields@)));
                    }
                    if !row_readable_exec(&row) {
                        proof {
                            assert(readable_rows(rs.take(i + 1), readable) is None);
                            lemma_readable_rows_prefix_none(rs, readable, i + 1);
                        }
                        return None;
                    }
                    let ghost rows = readable_rows(rs.take(i as int), readable)->0;
                    let rec = match LatestObsDataRecord::from_data_row(None, &row) {
                        Ok(rec) => rec,
                        Err(_) => {
                            return None;
                        },
                    };
                    proof {
                        let t = row_text(row@);
                        assert forall|k: int| 0 <= k < out.len() + 1 implies latest_obs_record_is(
                            #[trigger] out@.push(rec)[k],
                            rows.push(t)[k],
                        ) by {
                            if k < out.len() {
                                assert(out@.push(rec)[k] == out@[k]);
                                assert(rows.push(t)[k] == rows[k]);
                            }
                        }
                    }
                    out.push(rec);
                },
            }
            i += 1;
        }
        proof {
            assert(rs.take(i as int) =~= rs);
        }
        Some(out)
    }
}

} // verus!

//! Rows of an NDBC detailed wave summary file: the date as year, month,
//! day, hour and minute, then heights, periods and directions of the sea
//! state and its swell and wind wave parts, and the wave steepness.

use vstd::prelude::*;

use crate::data::delimited::{
    delimited_records, lemma_readable_rows_prefix_none, nonempty_row, read_delimited,
    readable_rows, record_views,
};
use crate::data::parseable_data_record::{row_text, DataRecordParsingError, ParseableDataRecord};
use crate::data::row_columns::{
    as_written, columns_date, measure, measured_from, spec_columns_date, written_as,
};
use crate::dimensional_data::DimensionalData;
use crate::text::{chars_of, check_float, float_result, push_str, string_views};
use crate::time::UtcDateTime;
use crate::units::Unit;

verus! {

/// A row of a detailed wave summary file. Measurements are held as the
/// float text they were read as; direction columns and the steepness are
/// held as written. The average period and the mean direction are read
/// from the swell direction and wind wave direction columns.
#[derive(Clone, Debug)]
pub struct WaveDataRecord {
    pub steepness: String,
    pub date: UtcDateTime,
    pub wave_height: DimensionalData<String>,
    pub swell_wave_height: DimensionalData<String>,
    pub swell_wave_period: DimensionalData<String>,
    pub wind_wave_height: DimensionalData<String>,
    pub wind_wave_period: DimensionalData<String>,
    pub swell_wave_direction: DimensionalData<String>,
    pub wind_wave_direction: DimensionalData<String>,
    pub average_wave_period: DimensionalData<String>,
    pub mean_wave_direction: DimensionalData<String>,
}

/// The rows that reading as a record does not panic on: 13 columns and a
/// calendar date in columns 0 to 4.
pub open spec fn wave_row_readable(row: Seq<Seq<char>>) -> bool {
    &&& row.len() >= 13
    &&& spec_columns_date(row, 0) is Some
}

/// `rec` is what the row `row` gives.
pub open spec fn wave_record_is(rec: WaveDataRecord, row: Seq<Seq<char>>) -> bool {
    &&& rec.steepness@ == row[12]
    &&& spec_columns_date(row, 0) == Some(rec.date)
    &&& measured_from(rec.wave_height, row[5], "wave height"@, Unit::Meters)
    &&& measured_from(rec.swell_wave_height, row[6], "swell wave height"@, Unit::Meters)
    &&& measured_from(rec.swell_wave_period, row[7], "swell period"@, Unit::Seconds)
    &&& measured_from(rec.wind_wave_height, row[8], "wind wave height"@, Unit::Meters)
    &&& measured_from(rec.wind_wave_period, row[9], "wind period"@, Unit::Seconds)
    &&& written_as(rec.swell_wave_direction, row[10], "swell wave direction"@, Unit::Degrees)
    &&& written_as(rec.wind_wave_direction, row[11], "wind wave direction"@, Unit::Degrees)
    &&& measured_from(rec.average_wave_period, row[10], "average wave period"@, Unit::Seconds)
    &&& written_as(rec.mean_wave_direction, row[11], "mean wave direction"@, Unit::Degrees)
}

impl ParseableDataRecord for WaveDataRecord {
    type Metadata = ();

    open spec fn row_readable(row: Seq<Seq<char>>) -> bool {
        wave_row_readable(row)
    }

    fn from_data_row(metadata: Option<&()>, row: &Vec<&str>) -> (r: Result<WaveDataRecord, DataRecordParsingError>)
        ensures
            r matches Ok(rec) && wave_record_is(rec, row_text(row@)),
    {
        let ghost text = row_text(row@);
        proof {
            assert forall|i: int| 0 <= i < row.len() implies #[trigger] text[i] == row@[i]@ by {}
        }
        // The steepness is kept as written.
        let mut steepness = String::new();
        push_str(&mut steepness, row[12]);
        let date = match columns_date(row, 0) {
            Some(d) => d,
            None => {
                return Err(DataRecordParsingError::InvalidData);
            },
        };
        Ok(
            WaveDataRecord {
                steepness,
                date,
                wave_height: measure(row[5], "wave height", Unit::Meters),
                swell_wave_height: measure(row[6], "swell wave height", Unit::Meters),
                swell_wave_period: measure(row[7], "swell period", Unit::Seconds),
                wind_wave_height: measure(row[8], "wind wave height", Unit::Meters),
                wind_wave_period: measure(row[9], "wind period", Unit::Seconds),
                swell_wave_direction: as_written(row[10], "swell wave direction", Unit::Degrees),
                wind_wave_direction: as_written(row[11], "wind wave direction", Unit::Degrees),
                average_wave_period: measure(row[10], "average wave period", Unit::Seconds),
                mean_wave_direction: as_written(row[11], "mean wave direction", Unit::Degrees),
            },
        )
    }
}


/// Whether reading `row` as a record does not panic.
fn row_readable_exec(row: &Vec<&str>) -> (b: bool)
    ensures
        b == wave_row_readable(row_text(row@)),
{
    let ghost text = row_text(row@);
    proof {
        assert forall|i: int| 0 <= i < row.len() implies #[trigger] text[i] == row@[i]@ by {}
    }
    if row.len() < 13 {
        return false;
    }
    columns_date(row, 0).is_some()
}

/// The records of a detailed wave summary file: spaces between fields and lines that start
/// with `#` left out.
pub open spec fn wave_file_records(data: Seq<char>) -> Seq<Result<Seq<Seq<char>>, Seq<char>>> {
    delimited_records(data, 32u8, 35u8)
}

/// The rows of a file of a detailed wave summary file records, when reading them does not panic.
pub open spec fn wave_rows(data: Seq<char>) -> Option<Seq<Seq<Seq<char>>>> {
    readable_rows(wave_file_records(data), |row: Seq<Seq<char>>| wave_row_readable(row))
}

/// `recs` are what `rows` give, one for one.
pub open spec fn wave_records_are(recs: Seq<WaveDataRecord>, rows: Seq<Seq<Seq<char>>>) -> bool {
    &&& recs.len() == rows.len()
    &&& forall|i: int| 0 <= i < recs.len() ==> wave_record_is(#[trigger] recs[i], rows[i])
}

/// The rows of a detailed wave summary file.
pub struct WaveDataRecordCollection<'a> {
    data: &'a str,
}

impl<'a> WaveDataRecordCollection<'a> {
    /// The text the records are read from.
    pub closed spec fn text(&self) -> Seq<char> {
        self.data@
    }

    pub fn from_data(data: &'a str) -> (c: Self)
        ensures
            c.text() == data@,
    {
        WaveDataRecordCollection { data }
    }

    /// The records of the file, one per row that is read.
    pub fn records(&self) -> (r: Vec<WaveDataRecord>)
        requires
            wave_rows(self.text()) is Some,
        ensures
            wave_rows(self.text()) matches Some(rows) && wave_records_are(r@, rows),
    {
        match self.try_records() {
            Some(r) => r,
            None => Vec::new(),
        }
    }

    /// As `records`, but `None` where reading a row would panic.
    pub fn try_records(&self) -> (r: Option<Vec<WaveDataRecord>>)
        ensures
            match (r, wave_rows(self.text())) {
                (None, None) => true,
                (Some(v), Some(rows)) => wave_records_are(v@, rows),
                _ => false,
            },
    {
        // ' ' between fields, '#' before comments
        let records = read_delimited(self.data, 32u8, 35u8);
        let ghost rs = wave_file_records(self.text());
        let ghost readable = |row: Seq<Seq<char>>| wave_row_readable(row);
        let mut out: Vec<WaveDataRecord> = Vec::new();
        let mut i: usize = 0;
        proof {
            assert(rs.take(0) =~= Seq::<Result<Seq<Seq<char>>, Seq<char>>>::empty());
        }
        while i < records.len()
            invariant
                i <= records.len(),
                rs == record_views(records@),
                rs == wave_file_records(self.text()),
                readable == (|row: Seq<Seq<char>>| wave_row_readable(row)),
                rs.len() == records.len(),
                readable_rows(rs.take(i as int), readable) matches Some(rows) && wave_records_are(out@, rows),
            decreases records.len() - i,
        {
            proof {
                assert(rs.take(i + 1).drop_last() =~= rs.take(i as int));
                assert(rs.take(i + 1).last() == rs[i as int]);
            }
            match &records[i] {
                Err(_) => {},
                Ok(fields) => {
                    let row = nonempty_row(fields);
                    proof {
                        assert(rs[i as int] == Ok::<Seq<Seq<char>>, Seq<char>>(string_views(fields@)));
                    }
                    if !row_readable_exec(&row) {
                        proof {
                            assert(readable_rows(rs.take(i + 1), readable) is None);
                            lemma_readable_rows_prefix_none(rs, readable, i + 1);
                        }
                        return None;
                    }
                    let ghost rows = readable_rows(rs.take(i as int), readable)->0;
                    let rec = match WaveDataRecord::from_data_row(None, &row) {
                        Ok(rec) => rec,
                        Err(_) => {
                            return None;
                        },
                    };
                    proof {
                        let t = row_text(row@);
                        assert forall|k: int| 0 <= k < out.len() + 1 implies wave_record_is(
                            #[trigger] out@.push(rec)[k],
                            rows.push(t)[k],
                        ) by {
                            if k < out.len() {
                                assert(out@.push(rec)[k] == out@[k]);
                                assert(rows.push(t)[k] == rows[k]);
                            }
                        }
                    }
                    out.push(rec);
                },
            }
            i += 1;
        }
        proof {
            assert(rs.take(i as int) =~= rs);
        }
        Some(out)
    }
}

} // verus!

//! WAVEWATCH III point spectra read whole: the header, then every record,
//! stopping at the first that fails.

use vstd::prelude::*;
use vstd::utf8::{encode_utf8, is_char_boundary};

use crate::buoy::data::date_record::DateRecord;
use crate::data::forecast_spectral_wave_data_record::{
    date_field, date_part, energy_values, holds, lemma_energy_values_bounds, lemma_header_within,
    measured, point_pattern, push_floats, spec_spectra_metadata, spectra_stop_matches,
    ForecastSpectralWaveDataRecordMetadata, ForecastSpectralWaveRecordIterator, SpectraStop,
};
use crate::data::gefs_bulletin_wave_data_record::{group, group_present};
use crate::data::parseable_data_record::{parse_failure, DataRecordParsingError};
use crate::dimensional_data::DimensionalData;
use crate::pattern::{opt_views, regex_captures, regex_search};
use crate::text::{
    chars_of, check_float, copy_string, float_result, int_result, lines, parse_int, push_str,
    string_views, substring,
};
use crate::units::Unit;

verus! {

/// A record of a spectra file, its numbers held as the text they were read
/// as.
#[derive(Clone, Debug)]
pub struct ForecastSpectralWaveDataRecord {
    pub date: DateRecord,
    pub latitude: String,
    pub longitude: String,
    pub depth: DimensionalData<String>,
    pub wind_speed: DimensionalData<String>,
    pub wind_direction: DimensionalData<String>,
    pub current_speed: DimensionalData<String>,
    pub current_direction: DimensionalData<String>,
    pub values: Vec<String>,
}

/// The date line of a record: year, month and day in bytes 0 to 8, hour
/// and minute in bytes 11 to 15, each failure reported as the year's.
pub open spec fn buoy_record_date(line: Seq<char>) -> Result<DateRecord, SpectraStop> {
    let b = encode_utf8(line);
    let lo = i32::MIN as int;
    let hi = i32::MAX as int;
    match date_field(b, 0, 4, lo, hi, "year"@) {
        Err(e) => Err(e),
        Ok(y) => match date_field(b, 4, 6, lo, hi, "year"@) {
            Err(e) => Err(e),
            Ok(mo) => match date_field(b, 6, 8, lo, hi, "year"@) {
                Err(e) => Err(e),
                Ok(d) => match date_field(b, 11, 13, lo, hi, "year"@) {
                    Err(e) => Err(e),
                    Ok(h) => match date_field(b, 13, 15, lo, hi, "year"@) {
                        Err(e) => Err(e),
                        Ok(mi) => Ok(
                            DateRecord {
                                year: y as i32,
                                month: mo as i32,
                                day: d as i32,
                                hour: h as i32,
                                minute: mi as i32,
                            },
                        ),
                    },
                },
            },
        },
    }
}

/// The name of point value `i` (1 to 7) in failures.
pub open spec fn point_name(i: int) -> Seq<char> {
    if i == 1 {
        "latitude"@
    } else if i == 2 {
        "longitude"@
    } else if i == 3 {
        "depth"@
    } else if i == 4 {
        "wind speed"@
    } else if i == 5 {
        "wind direction"@
    } else if i == 6 {
        "current speed"@
    } else {
        "current direction"@
    }
}

/// The two directions are whole degrees; the other point values are floats.
pub open spec fn whole_degrees(i: int) -> bool {
    i == 5 || i == 7
}

/// Why point value text `t` is not read, if it is not.
pub open spec fn point_value_failure(t: Seq<char>, i: int) -> Option<Seq<char>> {
    if whole_degrees(i) {
        match int_result(t, i32::MIN as int, i32::MAX as int) {
            Err(k) => Some(k.spec_message()),
            Ok(_) => None,
        }
    } else {
        match float_result(t) {
            Err(k) => Some(k.spec_message()),
            Ok(_) => None,
        }
    }
}

/// The point values `i..=7` of a match, or the failure of the first that
/// is missing or not a number.
pub open spec fn buoy_point_values(g: Seq<Option<Seq<char>>>, i: int) -> Result<Seq<Seq<char>>, SpectraStop>
    decreases 8 - i,
{
    if i > 7 || i < 1 {
        Ok(Seq::empty())
    } else if !group_present(g, i) {
        Err(SpectraStop::Failure("Failed to parse "@ + point_name(i)))
    } else {
        match point_value_failure(group(g, i), i) {
            Some(m) => Err(SpectraStop::Failure("Failed to parse "@ + point_name(i) + ": "@ + m)),
            None => match buoy_point_values(g, i + 1) {
                Err(e) => Err(e),
                Ok(rest) => Ok(seq![group(g, i)] + rest),
            },
        }
    }
}

/// A record as read: its date, the seven point values and the energy
/// values.
pub type BuoySpectraText = (DateRecord, Seq<Seq<char>>, Seq<Seq<char>>);

/// The records from line `pos` on with `count` energy values each, or the
/// first stop: a date, point or energy line that fails, or a panic.
pub open spec fn buoy_records(ls: Seq<Seq<char>>, pos: int, count: int) -> Result<Seq<BuoySpectraText>, SpectraStop>
    decreases ls.len() - pos,
{
    if pos < 0 || pos >= ls.len() {
        Ok(Seq::empty())
    } else {
        match buoy_record_date(ls[pos]) {
            Err(e) => Err(e),
            Ok(date) => if pos + 1 >= ls.len() {
                Err(SpectraStop::Failure("Failed to parse point data"@))
            } else {
                match regex_search(point_pattern(), ls[pos + 1]) {
                    Err(m) => Err(SpectraStop::Failure(m)),
                    Ok(None) => Err(SpectraStop::Failure("Invalid data for point data"@)),
                    Ok(Some(g)) => match buoy_point_values(g, 1) {
                        Err(e) => Err(e),
                        Ok(point) => match energy_values(ls, pos + 2, count, Seq::empty()) {
                            None => Err(SpectraStop::Failure("Failed to parse energy data"@)),
                            Some((energy, next)) => if pos < next <= ls.len() {
                                match buoy_records(ls, next, count) {
                                    Err(e) => Err(e),
                                    Ok(rest) => Ok(seq![(date, point, energy)] + rest),
                                }
                            } else {
                                Ok(seq![(date, point, energy)])
                            },
                        },
                    },
                }
            },
        }
    }
}

/// `rec` is the record `t` as read.
pub open spec fn buoy_record_is(rec: ForecastSpectralWaveDataRecord, t: BuoySpectraText) -> bool {
    &&& t.1.len() == 7
    &&& rec.date == t.0
    &&& rec.latitude@ == t.1[0]
    &&& rec.longitude@ == t.1[1]
    &&& holds(rec.depth, t.1[2], "depth"@, Unit::Meters)
    &&& holds(rec.wind_speed, t.1[3], "wind speed"@, Unit::MetersPerSecond)
    &&& holds(rec.wind_direction, t.1[4], "wind direction"@, Unit::Degrees)
    &&& holds(rec.current_speed, t.1[5], "current speed"@, Unit::MetersPerSecond)
    &&& holds(rec.current_direction, t.1[6], "current direction"@, Unit::Degrees)
    &&& string_views(rec.values@) == t.2
}

/// `recs` are the records `ts` as read, one for one.
pub open spec fn buoy_records_are(recs: Seq<ForecastSpectralWaveDataRecord>, ts: Seq<BuoySpectraText>) -> bool {
    &&& recs.len() == ts.len()
    &&& forall|i: int| 0 <= i < recs.len() ==> buoy_record_is(#[trigger] recs[i], ts[i])
}

/// Reading the spectra `s` whole does not panic: the number of energy
/// values per record fits in `usize`, and no date line is cut outside its
/// text.
pub open spec fn buoy_spectra_readable(s: Seq<char>) -> bool {
    match spec_spectra_metadata(s) {
        Ok((freq, dir, points, start)) => regex_search(point_pattern(), Seq::empty()) is Ok ==> {
            &&& freq.len() * dir.len() <= usize::MAX
            &&& buoy_records(lines(s), start, (freq.len() * dir.len()) as int) != Err::<Seq<BuoySpectraText>, SpectraStop>(
                SpectraStop::Panic,
            )
        },
        Err(_) => true,
    }
}

/// What reading the spectra `s` whole gives.
pub open spec fn buoy_spectra_are(
    r: Result<(Option<ForecastSpectralWaveDataRecordMetadata>, Vec<ForecastSpectralWaveDataRecord>), DataRecordParsingError>,
    s: Seq<char>,
) -> bool {
    match (r, spec_spectra_metadata(s)) {
        (Err(e), Err(msg)) => e matches DataRecordParsingError::ParseFailure(t) && t@ == msg,
        (Err(e), Ok((freq, dir, points, start))) => match regex_search(point_pattern(), Seq::empty()) {
            Err(m) => e matches DataRecordParsingError::ParseFailure(t) && t@ == "Failed to create point regex: "@ + m,
            Ok(_) => buoy_records(lines(s), start, (freq.len() * dir.len()) as int) matches Err(stop)
                && spectra_stop_matches(e, stop),
        },
        (Ok((meta, recs)), Ok((freq, dir, points, start))) => {
            &&& regex_search(point_pattern(), Seq::empty()) is Ok
            &&& meta matches Some(m) && string_views(m.frequency@) == freq && string_views(m.direction@)
                == dir && m.point_count == points && m.line_count == start
            &&& buoy_records(lines(s), start, (freq.len() * dir.len()) as int) matches Ok(ts) && buoy_records_are(recs@, ts)
        },
        _ => false,
    }
}

/// One field of a date line, or `None` where slicing it would panic.
fn date_column(line: &str, from: usize, to: usize) -> (r: Option<Result<i64, DataRecordParsingError>>)
    requires
        from <= to,
    ensures
        match (r, date_field(encode_utf8(line@), from as int, to as int, i32::MIN as int, i32::MAX as int, "year"@)) {
            (None, Err(SpectraStop::Panic)) => true,
            (Some(Ok(v)), Ok(w)) => v == w && i32::MIN <= v <= i32::MAX,
            (Some(Err(e)), Err(stop)) => stop !is Panic && spectra_stop_matches(e, stop),
            _ => false,
        },
{
    let n = line.as_bytes().len();
    if n < to || !line.is_char_boundary(from) || !line.is_char_boundary(to) {
        return None;
    }
    Some(date_part(line, from, to, i32::MIN as i64, i32::MAX as i64, "year"))
}

/// The date line of a record, or `None` where reading it would panic.
fn read_date(line: &str) -> (r: Option<Result<DateRecord, DataRecordParsingError>>)
    ensures
        match (r, buoy_record_date(line@)) {
            (None, Err(SpectraStop::Panic)) => true,
            (Some(Ok(d)), Ok(e)) => d == e,
            (Some(Err(e)), Err(stop)) => stop !is Panic && spectra_stop_matches(e, stop),
            _ => false,
        },
{
    let year = match date_column(line, 0, 4) {
        None => return None,
        Some(Err(e)) => return Some(Err(e)),
        Some(Ok(v)) => v as i32,
    };
    let month = match date_column(line, 4, 6) {
        None => return None,
        Some(Err(e)) => return Some(Err(e)),
        Some(Ok(v)) => v as i32,
    };
    let day = match date_column(line, 6, 8) {
        None => return None,
        Some(Err(e)) => return Some(Err(e)),
        Some(Ok(v)) => v as i32,
    };
    let hour = match date_column(line, 11, 13) {
        None => return None,
        Some(Err(e)) => return Some(Err(e)),
        Some(Ok(v)) => v as i32,
    };
    let minute = match date_column(line, 13, 15) {
        None => return None,
        Some(Err(e)) => return Some(Err(e)),
        Some(Ok(v)) => v as i32,
    };
    Some(Ok(DateRecord { year, month, day, hour, minute }))
}

fn point_label(i: usize) -> (name: &'static str)
    ensures
        name@ == point_name(i as int),
{
    let name = if i == 1 {
        "latitude"
    } else if i == 2 {
        "longitude"
    } else if i == 3 {
        "depth"
    } else if i == 4 {
        "wind speed"
    } else if i == 5 {
        "wind direction"
    } else if i == 6 {
        "current speed"
    } else {
        "current direction"
    };
    proof {
        reveal_strlit("latitude");
        reveal_strlit("longitude");
        reveal_strlit("depth");
        reveal_strlit("wind speed");
        reveal_strlit("wind direction");
        reveal_strlit("current speed");
        reveal_strlit("current direction");
    }
    name
}

/// Why point value `i` is not read, if it is not.
fn point_failure(text: &String, i: usize) -> (r: Option<&'static str>)
    ensures
        match (r, point_value_failure(text@, i as int)) {
            (None, None) => true,
            (Some(m), Some(n)) => m@ == n,
            _ => false,
        },
{
    let chars = chars_of(text.as_str());
    proof {
        assert(chars@.subrange(0, chars.len() as int) =~= chars@);
    }
    if i == 5 || i == 7 {
        match parse_int(&chars, 0, chars.len(), i32::MIN as i64, i32::MAX as i64) {
            Ok(_) => None,
            Err(k) => Some(k.message()),
        }
    } else {
        match check_float(&chars, 0, chars.len()) {
            Ok(_) => None,
            Err(k) => Some(k.message()),
        }
    }
}

/// The seven point values of a match.
pub fn read_point_values(g: &Vec<Option<String>>) -> (r: Result<Vec<String>, DataRecordParsingError>)
    ensures
        match (r, buoy_point_values(opt_views(g@), 1)) {
            (Ok(v), Ok(w)) => string_views(v@) == w && v.len() == 7,
            (Err(e), Err(stop)) => spectra_stop_matches(e, stop),
            _ => false,
        },
{
    let ghost gv = opt_views(g@);
    proof {
        lemma_point_values_len(gv, 1);
    }
    let mut values: Vec<String> = Vec::new();
    let mut i: usize = 1;
    proof {
        assert(string_views(values@) =~= Seq::<Seq<char>>::empty());
        match buoy_point_values(gv, 1) {
            Ok(rest) => {
                assert(Seq::<Seq<char>>::empty() + rest =~= rest);
            },
            Err(_) => {},
        }
    }
    while i <= 7
        invariant
            1 <= i <= 8,
            gv == opt_views(g@),
            match buoy_point_values(gv, i as int) {
                Err(e) => buoy_point_values(gv, 1) == Err::<Seq<Seq<char>>, SpectraStop>(e),
                Ok(rest) => buoy_point_values(gv, 1) == Ok::<Seq<Seq<char>>, SpectraStop>(
                    string_views(values@) + rest,
                ),
            },
        decreases 8 - i,
    {
        if i >= g.len() || g[i].is_none() {
            proof {
                assert(!group_present(gv, i as int));
            }
            let mut t = String::new();
            push_str(&mut t, "Failed to parse ");
            push_str(&mut t, point_label(i));
            return Err(DataRecordParsingError::ParseFailure(t));
        }
        let text = match &g[i] {
            Some(t) => t,
            None => {
                return Err(DataRecordParsingError::InvalidData);
            },
        };
        proof {
            assert(group_present(gv, i as int));
            assert(group(gv, i as int) == text@);
        }
        if let Some(m) = point_failure(text, i) {
            let mut t = String::new();
            push_str(&mut t, "Failed to parse ");
            push_str(&mut t, point_label(i));
            push_str(&mut t, ": ");
            push_str(&mut t, m);
            return Err(DataRecordParsingError::ParseFailure(t));
        }
        let ghost before = string_views(values@);
        values.push(copy_string(text));
        proof {
            assert(string_views(values@) =~= before.push(text@));
            match buoy_point_values(gv, i + 1) {
                Ok(rest) => {
                    assert(before + (seq![text@] + rest) =~= before.push(text@) + rest);
                },
                Err(_) => {},
            }
        }
        i += 1;
    }
    proof {
        assert(buoy_point_values(gv, 8) == Ok::<Seq<Seq<char>>, SpectraStop>(Seq::empty()));
        assert(string_views(values@) + Seq::<Seq<char>>::empty() =~= string_views(values@));
    }
    Ok(values)
}

/// A successful read of the point values `i..=7` holds `8 - i` of them.
proof fn lemma_point_values_len(g: Seq<Option<Seq<char>>>, i: int)
    requires
        1 <= i <= 8,
    ensures
        buoy_point_values(g, i) matches Ok(v) ==> v.len() == 8 - i,
    decreases 8 - i,
{
    if i <= 7 {
        lemma_point_values_len(g, i + 1);
    }
}

impl ForecastSpectralWaveDataRecord {
    /// The header of a spectra file and all its records; the first record
    /// that fails fails the whole. `count` is not used.
    pub fn from_data(data: &str, count: Option<usize>) -> (r: Result<
        (Option<ForecastSpectralWaveDataRecordMetadata>, Vec<ForecastSpectralWaveDataRecord>),
        DataRecordParsingError,
    >)
        requires
            buoy_spectra_readable(data@),
        ensures
            buoy_spectra_are(r, data@),
    {
        match Self::try_from_data(data, count) {
            Some(r) => r,
            None => Err(DataRecordParsingError::InvalidData),
        }
    }

    /// As `from_data`, but `None` where reading would panic.
    pub fn try_from_data(data: &str, count: Option<usize>) -> (r: Option<
        Result<
            (Option<ForecastSpectralWaveDataRecordMetadata>, Vec<ForecastSpectralWaveDataRecord>),
            DataRecordParsingError,
        >,
    >)
        ensures
            match r {
                None => !buoy_spectra_readable(data@),
                Some(res) => buoy_spectra_are(res, data@),
            },
    {
        let it = match ForecastSpectralWaveRecordIterator::from_data(data) {
            Ok(it) => it,
            Err(e) => {
                return Some(Err(e));
            },
        };
        proof {
            lemma_header_within(data@);
        }
        let (all, start, metadata) = it.into_parts();
        let ghost ls = string_views(all@);
        let energy_count = match metadata.frequency.len().checked_mul(metadata.direction.len()) {
            Some(c) => c,
            None => {
                return None;
            },
        };
        let ghost c = energy_count as int;
        let ghost whole = buoy_records(ls, start as int, c);
        let ghost mut done: Seq<BuoySpectraText> = Seq::empty();
        let mut records: Vec<ForecastSpectralWaveDataRecord> = Vec::new();
        let mut pos: usize = start;
        proof {
            match whole {
                Ok(w) => {
                    assert(done + w =~= w);
                },
                Err(_) => {},
            }
        }
        loop
            invariant_except_break
                match buoy_records(ls, pos as int, c) {
                    Err(e) => whole == Err::<Seq<BuoySpectraText>, SpectraStop>(e),
                    Ok(rest) => whole == Ok::<Seq<BuoySpectraText>, SpectraStop>(done + rest),
                },
            invariant
                pos <= ls.len(),
                all.len() == ls.len(),
                ls == string_views(all@),
                ls == lines(data@),
                regex_search(point_pattern(), Seq::empty()) is Ok,
                spec_spectra_metadata(data@) matches Ok((freq, dir, points, st)) && st == start && c == freq.len()
                    * dir.len() && string_views(metadata.frequency@) == freq && string_views(metadata.direction@)
                    == dir && metadata.point_count == points && metadata.line_count == st,
                c == energy_count,
                whole == buoy_records(ls, start as int, c),
                buoy_records_are(records@, done),
            ensures
                whole == Ok::<Seq<BuoySpectraText>, SpectraStop>(done),
            decreases ls.len() - pos,
        {
            if pos >= all.len() {
                proof {
                    assert(done + Seq::<BuoySpectraText>::empty() =~= done);
                }
                break;
            }
            proof {
                assert(all@[pos as int]@ == ls[pos as int]);
            }
            let date = match read_date(all[pos].as_str()) {
                None => {
                    return None;
                },
                Some(Err(e)) => {
                    return Some(Err(e));
                },
                Some(Ok(d)) => d,
            };
            if pos + 1 >= all.len() {
                return Some(Err(parse_failure("Failed to parse point data")));
            }
            proof {
                assert(all@[pos + 1]@ == ls[pos + 1]);
            }
            let caps = regex_captures(
                ".{0,12}\\s*([+-]?[0-9]*[.]?[0-9]+)\\s*([+-]?[0-9]*[.]?[0-9]+)\\s*([+-]?[0-9]*[.]?[0-9]+)\\s*([+-]?[0-9]*[.]?[0-9]+)\\s*([+-]?[0-9]*[.]?[0-9]+)\\s*([+-]?[0-9]*[.]?[0-9]+)\\s*([+-]?[0-9]*[.]?[0-9]+)",
                all[pos + 1].as_str(),
            );
            let g = match caps {
                Err(e) => {
                    return Some(Err(DataRecordParsingError::ParseFailure(e)));
                },
                Ok(None) => {
                    return Some(Err(parse_failure("Invalid data for point data")));
                },
                Ok(Some(g)) => g,
            };
            let point = match read_point_values(&g) {
                Err(e) => {
                    return Some(Err(e));
                },
                Ok(p) => p,
            };
            let mut values: Vec<String> = Vec::new();
            let mut p: usize = pos + 2;
            proof {
                assert(string_views(values@) =~= Seq::<Seq<char>>::empty());
                lemma_energy_values_bounds(ls, pos + 2, c, Seq::empty());
            }
            while values.len() < energy_count && p < all.len()
                invariant
                    pos + 2 <= p <= ls.len(),
                    all.len() == ls.len(),
                    ls == string_views(all@),
                    c == energy_count,
                    energy_values(ls, pos + 2, c, Seq::empty()) == energy_values(
                        ls,
                        p as int,
                        c,
                        string_views(values@),
                    ),
                decreases ls.len() - p,
            {
                proof {
                    assert(all@[p as int]@ == ls[p as int]);
                }
                push_floats(&all[p], &mut values);
                p += 1;
            }
            if values.len() < energy_count {
                return Some(Err(parse_failure("Failed to parse energy data")));
            }
            let ghost t = (date, string_views(point@), string_views(values@));
            proof {
                lemma_energy_values_bounds(ls, pos + 2, c, Seq::empty());
                assert(energy_values(ls, pos + 2, c, Seq::empty()) == Some((string_views(values@), p as int)));
            }
            let rec = ForecastSpectralWaveDataRecord {
                date,
                latitude: copy_string(&point[0]),
                longitude: copy_string(&point[1]),
                depth: measured(&point[2], "depth", Unit::Meters),
                wind_speed: measured(&point[3], "wind speed", Unit::MetersPerSecond),
                wind_direction: measured(&point[4], "wind direction", Unit::Degrees),
                current_speed: measured(&point[5], "current speed", Unit::MetersPerSecond),
                current_direction: measured(&point[6], "current direction", Unit::Degrees),
                values,
            };
            proof {
                assert(buoy_record_is(rec, t));
                match buoy_records(ls, p as int, c) {
                    Ok(rest) => {
                        assert(done + (seq![t] + rest) =~= done.push(t) + rest);
                    },
                    Err(_) => {},
                }
                assert forall|k: int| 0 <= k < records@.len() + 1 implies buoy_record_is(
                    #[trigger] records@.push(rec)[k],
                    done.push(t)[k],
                ) by {
                    if k < records@.len() {
                        assert(records@.push(rec)[k] == records@[k]);
                        assert(done.push(t)[k] == done[k]);
                    }
                }
                done = done.push(t);
            }
            records.push(rec);
            pos = p;
        }
        Some(Ok((Some(metadata), records)))
    }
}

} // verus!

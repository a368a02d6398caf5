//! NDBC buoy stations: their listing, display name and data URLs.
//!
//! Coordinates are held as the decimal text the station listing gives.

use vstd::prelude::*;

use crate::model::ModelDataSource;
use crate::text::{
    chars_of, int_result, push_char, push_str, split_on, split_spans, split_ws, string_views,
    substring, trim, trim_bounds, words_of,
};
use crate::time::{push_plain_ymd, spec_plain_ymd, UtcDateTime};
use crate::text::{copy_string, push_zero_padded, zero_padded};

verus! {

/// The kind of platform an NDBC station is.
#[derive(Debug, Clone, Copy, PartialEq, Eq, PartialOrd, Ord)]
pub enum BuoyType {
    /// Listed with type "none".
    Unspecified,
    Buoy,
    Fixed,
    OilRig,
    Dart,
    Tao,
    USV,
    Virtual,
    Other,
}

impl BuoyType {
    /// The name shown to users, as the station's type is printed.
    pub open spec fn spec_label(self) -> Seq<char> {
        match self {
            BuoyType::Unspecified => "None"@,
            BuoyType::Buoy => "Buoy"@,
            BuoyType::Fixed => "Fixed"@,
            BuoyType::OilRig => "Oil Rig"@,
            BuoyType::Dart => "Dart"@,
            BuoyType::Tao => "Tao"@,
            BuoyType::USV => "USV"@,
            BuoyType::Virtual => "Virtual"@,
            BuoyType::Other => "Other"@,
        }
    }

    pub fn label(&self) -> (s: &'static str)
        ensures
            s@ == self.spec_label(),
    {
        match self {
            BuoyType::Unspecified => "None",
            BuoyType::Buoy => "Buoy",
            BuoyType::Fixed => "Fixed",
            BuoyType::OilRig => "Oil Rig",
            BuoyType::Dart => "Dart",
            BuoyType::Tao => "Tao",
            BuoyType::USV => "USV",
            BuoyType::Virtual => "Virtual",
            BuoyType::Other => "Other",
        }
    }
}

/// A flag of the NDBC station listing written as text: `y` is set, `n` is
/// not, anything else is no flag.
pub open spec fn spec_listing_flag(text: Seq<char>) -> Option<bool> {
    if text == "y"@ {
        Some(true)
    } else if text == "n"@ {
        Some(false)
    } else {
        None
    }
}

/// Reads a flag of the station listing; see `spec_listing_flag`.
pub fn listing_flag(text: &str) -> (r: Option<bool>)
    ensures
        r == spec_listing_flag(text@),
{
    let chars = chars_of(text);
    proof {
        reveal_strlit("y");
        reveal_strlit("n");
    }
    if chars.len() == 1 && chars[0] == 'y' {
        proof {
            assert(text@ =~= "y"@);
        }
        Some(true)
    } else if chars.len() == 1 && chars[0] == 'n' {
        proof {
            assert(text@ =~= "n"@);
        }
        Some(false)
    } else {
        proof {
            if text@ == "y"@ || text@ == "n"@ {
                assert(chars@.len() == 1);
            }
        }
        None
    }
}

/// A station of the NDBC station listing.
#[derive(Debug, Clone)]
pub struct BuoyStation {
    pub station_id: String,
    pub raw_name: String,
    pub owner: String,
    pub program: String,
    pub buoy_type: BuoyType,
    pub has_meteorological_data: bool,
    pub has_currents_data: bool,
    pub has_water_quality_data: bool,
    pub has_tsnuami_data: bool,
    pub latitude: String,
    pub longitude: String,
    pub elevation: String,
}

/// The root of the GFS wave output on a mirror.
pub open spec fn spec_gfswave_source_path(source: ModelDataSource) -> Seq<char> {
    match source {
        ModelDataSource::NODDAWS => "https://noaa-gfs-bdp-pds.s3.amazonaws.com"@,
        ModelDataSource::NOMADS => "https://nomads.ncep.noaa.gov/pub/data/nccf/com/gfs/prod"@,
        ModelDataSource::NODDGCP => "https://storage.googleapis.com/global-forecast-system"@,
    }
}

fn source_path(source: &ModelDataSource) -> (p: &'static str)
    ensures
        p@ == spec_gfswave_source_path(*source),
{
    match source {
        ModelDataSource::NODDAWS => "https://noaa-gfs-bdp-pds.s3.amazonaws.com",
        ModelDataSource::NOMADS => "https://nomads.ncep.noaa.gov/pub/data/nccf/com/gfs/prod",
        ModelDataSource::NODDGCP => "https://storage.googleapis.com/global-forecast-system",
    }
}

/// `gfs.YYYYMMDD/HH/wave/station/bulls.tHHz` for the run at `t`.
pub open spec fn spec_bulls_prefix(t: UtcDateTime) -> Seq<char> {
    "gfs."@ + spec_plain_ymd(t) + "/"@ + zero_padded(t.hour as nat, 2) + "/wave/station/bulls.t"@
        + zero_padded(t.hour as nat, 2) + "z"@
}

fn push_bulls_prefix(s: &mut String, t: &UtcDateTime)
    ensures
        final(s)@ == old(s)@ + spec_bulls_prefix(*t),
{
    let ghost start = s@;
    push_str(s, "gfs.");
    push_plain_ymd(s, t);
    push_str(s, "/");
    push_zero_padded(s, t.hour as u64, 2);
    push_str(s, "/wave/station/bulls.t");
    push_zero_padded(s, t.hour as u64, 2);
    push_str(s, "z");
    proof {
        assert(s@ =~= start + spec_bulls_prefix(*t));
    }
}

/// The pieces of a station's listed name kept for display: each piece
/// between hyphens, trimmed, unless it is an integer.
pub open spec fn kept_pieces(pieces: Seq<Seq<char>>) -> Seq<Seq<char>>
    decreases pieces.len(),
{
    if pieces.len() == 0 {
        Seq::empty()
    } else {
        let rest = kept_pieces(pieces.drop_last());
        let t = trim(pieces.last());
        if int_result(t, i64::MIN as int, i64::MAX as int) is Ok {
            rest
        } else {
            rest.push(t)
        }
    }
}

/// The texts of `ps` one after another.
pub open spec fn concat(ps: Seq<Seq<char>>) -> Seq<char>
    decreases ps.len(),
{
    if ps.len() == 0 {
        Seq::empty()
    } else {
        concat(ps.drop_last()) + ps.last()
    }
}

/// The words of `ws` that do not start with `(`.
pub open spec fn kept_words(ws: Seq<Seq<char>>) -> Seq<Seq<char>>
    decreases ws.len(),
{
    if ws.len() == 0 {
        Seq::empty()
    } else {
        let rest = kept_words(ws.drop_last());
        if ws.last().len() > 0 && ws.last()[0] == '(' {
            rest
        } else {
            rest.push(ws.last())
        }
    }
}

/// The words of `ws` separated by single spaces.
pub open spec fn join_spaced(ws: Seq<Seq<char>>) -> Seq<char>
    decreases ws.len(),
{
    if ws.len() == 0 {
        Seq::empty()
    } else if ws.len() == 1 {
        ws[0]
    } else {
        join_spaced(ws.drop_last()) + " "@ + ws.last()
    }
}

/// The display name of a listed name: without its integer pieces between
/// hyphens, and without words in parentheses.
pub open spec fn spec_station_name(raw: Seq<char>) -> Seq<char> {
    join_spaced(kept_words(split_ws(concat(kept_pieces(split_on(raw, '-'))))))
}

impl BuoyStation {
    pub fn new(station_id: String, latitude: String, longitude: String) -> (s: BuoyStation)
        ensures
            s.station_id == station_id,
            s.latitude == latitude,
            s.longitude == longitude,
            s.raw_name@ == Seq::<char>::empty(),
            s.owner@ == Seq::<char>::empty(),
            s.program@ == Seq::<char>::empty(),
            s.buoy_type == BuoyType::Buoy,
            s.has_meteorological_data,
            !s.has_currents_data,
            !s.has_water_quality_data,
            !s.has_tsnuami_data,
            s.elevation@ == "0"@,
    {
        let mut elevation = String::new();
        push_str(&mut elevation, "0");
        BuoyStation {
            station_id,
            latitude,
            longitude,
            raw_name: String::new(),
            owner: String::new(),
            program: String::new(),
            buoy_type: BuoyType::Buoy,
            has_meteorological_data: true,
            has_currents_data: false,
            has_water_quality_data: false,
            has_tsnuami_data: false,
            elevation,
        }
    }

    /// The station reports meteorological, current or water quality data
    /// (tsunami data is not counted).
    pub fn is_active(&self) -> (b: bool)
        ensures
            b == (self.has_meteorological_data || self.has_currents_data
                || self.has_water_quality_data),
    {
        self.has_meteorological_data || self.has_currents_data || self.has_water_quality_data
            || self.has_water_quality_data
    }

    /// A copy with the same fields.
    pub fn copy(&self) -> (c: BuoyStation)
        ensures
            c.station_id@ == self.station_id@,
            c.raw_name@ == self.raw_name@,
            c.owner@ == self.owner@,
            c.program@ == self.program@,
            c.buoy_type == self.buoy_type,
            c.has_meteorological_data == self.has_meteorological_data,
            c.has_currents_data == self.has_currents_data,
            c.has_water_quality_data == self.has_water_quality_data,
            c.has_tsnuami_data == self.has_tsnuami_data,
            c.latitude@ == self.latitude@,
            c.longitude@ == self.longitude@,
            c.elevation@ == self.elevation@,
    {
        BuoyStation {
            station_id: copy_string(&self.station_id),
            raw_name: copy_string(&self.raw_name),
            owner: copy_string(&self.owner),
            program: copy_string(&self.program),
            buoy_type: self.buoy_type,
            has_meteorological_data: self.has_meteorological_data,
            has_currents_data: self.has_currents_data,
            has_water_quality_data: self.has_water_quality_data,
            has_tsnuami_data: self.has_tsnuami_data,
            latitude: copy_string(&self.latitude),
            longitude: copy_string(&self.longitude),
            elevation: copy_string(&self.elevation),
        }
    }

    fn station_url(&self, before: &str, after: &str) -> (url: String)
        ensures
            url@ == before@ + self.station_id@ + after@,
    {
        let mut url = String::new();
        push_str(&mut url, before);
        push_str(&mut url, self.station_id.as_str());
        push_str(&mut url, after);
        proof {
            assert(url@ =~= before@ + self.station_id@ + after@);
        }
        url
    }

    pub fn latest_obs_data_url(&self) -> (url: String)
        ensures
            url@ == "https://ndbc.noaa.gov/data/latest_obs/"@ + self.station_id@ + ".txt"@,
    {
        self.station_url("https://ndbc.noaa.gov/data/latest_obs/", ".txt")
    }

    pub fn meteorological_data_url(&self) -> (url: String)
        ensures
            url@ == "https://www.ndbc.noaa.gov/data/realtime2/"@ + self.station_id@ + ".txt"@,
    {
        self.station_url("https://www.ndbc.noaa.gov/data/realtime2/", ".txt")
    }

    pub fn wave_data_url(&self) -> (url: String)
        ensures
            url@ == "https://www.ndbc.noaa.gov/data/realtime2/"@ + self.station_id@ + ".spec"@,
    {
        self.station_url("https://www.ndbc.noaa.gov/data/realtime2/", ".spec")
    }

    pub fn spectral_wave_data_url(&self) -> (url: String)
        ensures
            url@ == "https://www.ndbc.noaa.gov/data/realtime2/"@ + self.station_id@ + ".data_spec"@,
    {
        self.station_url("https://www.ndbc.noaa.gov/data/realtime2/", ".data_spec")
    }

    pub fn mean_wave_direction_spectral_data_url(&self) -> (url: String)
        ensures
            url@ == "https://www.ndbc.noaa.gov/data/realtime2/"@ + self.station_id@ + ".swdir"@,
    {
        self.station_url("https://www.ndbc.noaa.gov/data/realtime2/", ".swdir")
    }

    pub fn principal_wave_direction_spectral_data_url(&self) -> (url: String)
        ensures
            url@ == "https://www.ndbc.noaa.gov/data/realtime2/"@ + self.station_id@ + ".swdir2"@,
    {
        self.station_url("https://www.ndbc.noaa.gov/data/realtime2/", ".swdir2")
    }

    pub fn r1_spectral_data_url(&self) -> (url: String)
        ensures
            url@ == "https://www.ndbc.noaa.gov/data/realtime2/"@ + self.station_id@ + ".swr1"@,
    {
        self.station_url("https://www.ndbc.noaa.gov/data/realtime2/", ".swr1")
    }

    pub fn r2_spectral_data_url(&self) -> (url: String)
        ensures
            url@ == "https://www.ndbc.noaa.gov/data/realtime2/"@ + self.station_id@ + ".swr2"@,
    {
        self.station_url("https://www.ndbc.noaa.gov/data/realtime2/", ".swr2")
    }

    /// The OPeNDAP dataset of the station's standard meteorological data.
    pub open spec fn spec_stdmet_root(&self) -> Seq<char> {
        "https://dods.ndbc.noaa.gov/thredds/dodsC/data/stdmet/"@ + self.station_id@ + "/"@
            + self.station_id@ + "h9999.nc"@
    }

    /// The OPeNDAP dataset of the station's spectral wave density data.
    pub open spec fn spec_swden_root(&self) -> Seq<char> {
        "https://dods.ndbc.noaa.gov/thredds/dodsC/data/swden/"@ + self.station_id@ + "/"@
            + self.station_id@ + "w9999.nc"@
    }

    fn dap_root(&self, before: &str, middle: &str) -> (url: String)
        ensures
            url@ == before@ + self.station_id@ + "/"@ + self.station_id@ + middle@,
    {
        let mut url = String::new();
        push_str(&mut url, before);
        push_str(&mut url, self.station_id.as_str());
        push_str(&mut url, "/");
        push_str(&mut url, self.station_id.as_str());
        push_str(&mut url, middle);
        proof {
            assert(url@ =~= before@ + self.station_id@ + "/"@ + self.station_id@ + middle@);
        }
        url
    }

    pub fn stdmet_dap_url_root(&self) -> (url: String)
        ensures
            url@ == self.spec_stdmet_root(),
    {
        self.dap_root("https://dods.ndbc.noaa.gov/thredds/dodsC/data/stdmet/", "h9999.nc")
    }

    pub fn stdmet_das_url(&self) -> (url: String)
        ensures
            url@ == self.spec_stdmet_root() + ".das"@,
    {
        let mut url = self.stdmet_dap_url_root();
        push_str(&mut url, ".das");
        url
    }

    pub fn stdmet_dds_url(&self) -> (url: String)
        ensures
            url@ == self.spec_stdmet_root() + ".dds"@,
    {
        let mut url = self.stdmet_dap_url_root();
        push_str(&mut url, ".dds");
        url
    }

    pub fn swden_dap_url_root(&self) -> (url: String)
        ensures
            url@ == self.spec_swden_root(),
    {
        self.dap_root("https://dods.ndbc.noaa.gov/thredds/dodsC/data/swden/", "w9999.nc")
    }

    pub fn swden_das_url(&self) -> (url: String)
        ensures
            url@ == self.spec_swden_root() + ".das"@,
    {
        let mut url = self.swden_dap_url_root();
        push_str(&mut url, ".das");
        url
    }

    pub fn swden_dds_url(&self) -> (url: String)
        ensures
            url@ == self.spec_swden_root() + ".dds"@,
    {
        let mut url = self.swden_dap_url_root();
        push_str(&mut url, ".dds");
        url
    }

    pub fn gfswave_data_url_prefix(&self, model_date: &UtcDateTime) -> (p: String)
        ensures
            p@ == spec_bulls_prefix(*model_date),
    {
        let mut p = String::new();
        push_bulls_prefix(&mut p, model_date);
        proof {
            assert(p@ =~= spec_bulls_prefix(*model_date));
        }
        p
    }

    pub fn gfswave_bulletin_data_prefix(&self, model_date: &UtcDateTime) -> (p: String)
        ensures
            p@ == spec_bulls_prefix(*model_date) + "/gfswave."@ + self.station_id@ + ".cbull"@,
    {
        let mut p = self.gfswave_data_url_prefix(model_date);
        push_str(&mut p, "/gfswave.");
        push_str(&mut p, self.station_id.as_str());
        push_str(&mut p, ".cbull");
        proof {
            assert(p@ =~= spec_bulls_prefix(*model_date) + "/gfswave."@ + self.station_id@
                + ".cbull"@);
        }
        p
    }

    pub fn gfswave_spectral_data_prefix(&self, model_date: &UtcDateTime) -> (p: String)
        ensures
            p@ == spec_bulls_prefix(*model_date) + "/gfswave."@ + self.station_id@ + ".spec"@,
    {
        let mut p = self.gfswave_data_url_prefix(model_date);
        push_str(&mut p, "/gfswave.");
        push_str(&mut p, self.station_id.as_str());
        push_str(&mut p, ".spec");
        proof {
            assert(p@ =~= spec_bulls_prefix(*model_date) + "/gfswave."@ + self.station_id@
                + ".spec"@);
        }
        p
    }

    pub fn gfswave_bulletin_data_url(&self, source: &ModelDataSource, model_date: &UtcDateTime) -> (url:
        String)
        ensures
            url@ == spec_gfswave_source_path(*source) + "/"@ + spec_bulls_prefix(*model_date)
                + "/gfswave."@ + self.station_id@ + ".cbull"@,
    {
        let prefix = self.gfswave_bulletin_data_prefix(model_date);
        let mut url = String::new();
        push_str(&mut url, source_path(source));
        push_str(&mut url, "/");
        push_str(&mut url, prefix.as_str());
        proof {
            assert(url@ =~= spec_gfswave_source_path(*source) + "/"@ + spec_bulls_prefix(*model_date)
                + "/gfswave."@ + self.station_id@ + ".cbull"@);
        }
        url
    }

    pub fn gfswave_spectral_data_url(&self, source: &ModelDataSource, model_date: &UtcDateTime) -> (url:
        String)
        ensures
            url@ == spec_gfswave_source_path(*source) + "/"@ + spec_bulls_prefix(*model_date)
                + "/gfswave."@ + self.station_id@ + ".spec"@,
    {
        let prefix = self.gfswave_spectral_data_prefix(model_date);
        let mut url = String::new();
        push_str(&mut url, source_path(source));
        push_str(&mut url, "/");
        push_str(&mut url, prefix.as_str());
        proof {
            assert(url@ =~= spec_gfswave_source_path(*source) + "/"@ + spec_bulls_prefix(*model_date)
                + "/gfswave."@ + self.station_id@ + ".spec"@);
        }
        url
    }

    pub fn gfswave_lsl_url(source: &ModelDataSource, model_date: &UtcDateTime) -> (url: String)
        ensures
            url@ == spec_gfswave_source_path(*source) + "/gfs."@ + spec_plain_ymd(*model_date) + "/"@
                + zero_padded(model_date.hour as nat, 2) + "/wave/station/ls-l"@,
    {
        let mut url = String::new();
        push_str(&mut url, source_path(source));
        push_str(&mut url, "/gfs.");
        push_plain_ymd(&mut url, model_date);
        push_str(&mut url, "/");
        push_zero_padded(&mut url, model_date.hour as u64, 2);
        push_str(&mut url, "/wave/station/ls-l");
        proof {
            assert(url@ =~= spec_gfswave_source_path(*source) + "/gfs."@ + spec_plain_ymd(*model_date)
                + "/"@ + zero_padded(model_date.hour as nat, 2) + "/wave/station/ls-l"@);
        }
        url
    }

    pub fn gfswave_source_path(source: &ModelDataSource) -> (p: &'static str)
        ensures
            p@ == spec_gfswave_source_path(*source),
    {
        source_path(source)
    }

    pub fn id(&self) -> (id: &str)
        ensures
            id@ == self.station_id@,
    {
        self.station_id.as_str()
    }
}

impl BuoyStation {
    /// The station's display name; see `spec_station_name`.
    pub fn name(&self) -> (name: String)
        ensures
            name@ == spec_station_name(self.raw_name@),
    {
        let chars = chars_of(self.raw_name.as_str());
        let n = chars.len();
        let spans = split_spans(&chars, 0, n, '-');
        proof {
            assert(chars@.subrange(0, n as int) =~= chars@);
        }
        let ghost pieces = split_on(chars@, '-');
        let mut joined: Vec<char> = Vec::new();
        let mut i: usize = 0;
        proof {
            assert(pieces.take(0) =~= Seq::<Seq<char>>::empty());
        }
        while i < spans.len()
            invariant
                i <= spans.len() == pieces.len(),
                pieces == split_on(chars@, '-'),
                forall|k: int|
                    0 <= k < spans.len() ==> (#[trigger] spans@[k]).0 <= spans@[k].1 <= chars.len()
                        && chars@.subrange(spans@[k].0 as int, spans@[k].1 as int) == pieces[k],
                joined@ == concat(kept_pieces(pieces.take(i as int))),
            decreases spans.len() - i,
        {
            let (a, b) = spans[i];
            let (ta, tb) = trim_bounds(&chars, a, b);
            proof {
                assert(pieces.take(i + 1).drop_last() =~= pieces.take(i as int));
                assert(pieces.take(i + 1).last() == pieces[i as int]);
            }
            let parsed = crate::text::parse_int(&chars, ta, tb, i64::MIN, i64::MAX);
            let ghost t = chars@.subrange(ta as int, tb as int);
            let ghost kept_before = kept_pieces(pieces.take(i as int));
            proof {
                assert(t == trim(pieces[i as int]));
                if parsed is Ok {
                    assert(kept_pieces(pieces.take(i + 1)) == kept_before);
                } else {
                    assert(kept_pieces(pieces.take(i + 1)) == kept_before.push(t));
                    assert(kept_before.push(t).drop_last() =~= kept_before);
                    assert(concat(kept_before.push(t)) == concat(kept_before) + t);
                }
            }
            if parsed.is_err() {
                let ghost before = joined@;
                let mut j = ta;
                while j < tb
                    invariant
                        ta <= j <= tb <= chars.len(),
                        joined@ == before + chars@.subrange(ta as int, j as int),
                    decreases tb - j,
                {
                    joined.push(chars[j]);
                    j += 1;
                    proof {
                        assert(joined@ =~= before + chars@.subrange(ta as int, j as int));
                    }
                }
            }
            i += 1;
        }
        proof {
            assert(pieces.take(i as int) =~= pieces);
        }
        let words = words_of(&joined, 0, joined.len());
        proof {
            assert(joined@.subrange(0, joined.len() as int) =~= joined@);
        }
        let ghost ws = string_views(words@);
        let mut name = String::new();
        let mut kept: usize = 0;
        let mut w: usize = 0;
        proof {
            assert(ws.take(0) =~= Seq::<Seq<char>>::empty());
        }
        while w < words.len()
            invariant
                w <= words.len(),
                ws == string_views(words@),
                kept == kept_words(ws.take(w as int)).len(),
                kept <= w,
                name@ == join_spaced(kept_words(ws.take(w as int))),
            decreases words.len() - w,
        {
            let word = chars_of(words[w].as_str());
            proof {
                assert(ws.take(w + 1).drop_last() =~= ws.take(w as int));
                assert(ws.take(w + 1).last() == ws[w as int]);
                assert(ws[w as int] == word@);
            }
            if !(word.len() > 0 && word[0] == '(') {
                let ghost before = kept_words(ws.take(w as int));
                if kept > 0 {
                    push_char(&mut name, ' ');
                }
                push_str(&mut name, words[w].as_str());
                kept += 1;
                proof {
                    reveal_strlit(" ");
                    let after = before.push(word@);
                    assert(after.drop_last() =~= before);
                    if before.len() == 0 {
                        assert(name@ =~= word@);
                    } else {
                        assert(name@ =~= join_spaced(before) + " "@ + word@);
                    }
                }
            }
            w += 1;
        }
        proof {
            assert(ws.take(w as int) =~= ws);
        }
        name
    }
}

/// The stations of the NDBC listing.
#[derive(Debug, Clone)]
pub struct BuoyStations {
    pub stations: Vec<BuoyStation>,
    pub station_count: usize,
}

impl BuoyStations {
    pub fn active_stations_url() -> (url: &'static str)
        ensures
            url@ == "https://www.ndbc.noaa.gov/activestations.xml"@,
    {
        "https://www.ndbc.noaa.gov/activestations.xml"
    }

    pub fn latest_obs_url() -> (url: &'static str)
        ensures
            url@ == "https://www.ndbc.noaa.gov/data/latest_obs/latest_obs.txt"@,
    {
        "https://www.ndbc.noaa.gov/data/latest_obs/latest_obs.txt"
    }

    /// The directory of the station bulletins of the run at `model_date`,
    /// with a final `/`.
    pub fn gfswave_data_url_prefix(model_date: &UtcDateTime) -> (p: String)
        ensures
            p@ == spec_bulls_prefix(*model_date) + "/"@,
    {
        let mut p = String::new();
        push_bulls_prefix(&mut p, model_date);
        push_str(&mut p, "/");
        proof {
            assert(p@ =~= spec_bulls_prefix(*model_date) + "/"@);
        }
        p
    }

    pub fn gfswave_source_path(source: &ModelDataSource) -> (p: &'static str)
        ensures
            p@ == spec_gfswave_source_path(*source),
    {
        source_path(source)
    }

    /// Where the station bulletins of the GFS wave run at `model_date` are
    /// on the mirror `source`.
    pub fn gfswave_stations_root_url(source: &ModelDataSource, model_date: &UtcDateTime) -> (u: String)
        ensures
            u@ == spec_gfswave_source_path(*source) + "/"@ + spec_bulls_prefix(*model_date) + "/"@,
    {
        let prefix = Self::gfswave_data_url_prefix(model_date);
        let mut u = String::new();
        push_str(&mut u, source_path(source));
        push_str(&mut u, "/");
        push_str(&mut u, prefix.as_str());
        proof {
            assert(u@ =~= spec_gfswave_source_path(*source) + "/"@ + spec_bulls_prefix(*model_date)
                + "/"@);
        }
        u
    }

    pub fn from_stations(stations: Vec<BuoyStation>) -> (s: BuoyStations)
        ensures
            s.stations == stations,
            s.station_count == stations.len(),
    {
        let station_count = stations.len();
        BuoyStations { stations, station_count }
    }

    /// The first station with the id `station_id`.
    pub fn find_station(&self, station_id: &str) -> (r: Option<BuoyStation>)
        ensures
            match r {
                Some(s) => exists|i: int|
                    0 <= i < self.stations.len() && #[trigger] self.stations@[i].station_id@
                        == station_id@ && s.station_id@ == station_id@ && s.raw_name@
                        == self.stations@[i].raw_name@ && (forall|j: int|
                        0 <= j < i ==> self.stations@[j].station_id@ != station_id@),
                None => forall|i: int|
                    0 <= i < self.stations.len() ==> #[trigger] self.stations@[i].station_id@
                        != station_id@,
            },
    {
        let target = chars_of(station_id);
        let mut i: usize = 0;
        while i < self.stations.len()
            invariant
                i <= self.stations.len(),
                target@ == station_id@,
                forall|j: int| 0 <= j < i ==> self.stations@[j].station_id@ != station_id@,
            decreases self.stations.len() - i,
        {
            let id = chars_of(self.stations[i].station_id.as_str());
            let n = id.len();
            proof {
                assert(id@.subrange(0, n as int) =~= id@);
            }
            if crate::text::equals_at(&id, 0, n, &target) {
                let found = self.stations[i].copy();
                proof {
                    assert(self.stations@[i as int].station_id@ == station_id@);
                }
                return Some(found);
            }
            i += 1;
        }
        None
    }
}

impl Default for BuoyStations {
    fn default() -> (s: BuoyStations)
        ensures
            s.stations@.len() == 0,
            s.station_count == 0,
    {
        BuoyStations { stations: Vec::new(), station_count: 0 }
    }
}

} // verus!

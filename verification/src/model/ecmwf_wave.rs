//! ECMWF open-data wave and wind products: run schedule, file URLs, and the
//! selection of messages from `.index` files.

use vstd::prelude::*;

use crate::data::ecmwf_field::ECMWFField;
use crate::model::byte_range::{
    coalesce_ranges, ends_at_input, held_by, merge_sorted, ranges_fit, separated, sorted_by_offset,
    starts_at_input, ByteRange, IndexEntry,
};
use crate::model::gridded_model::{query_date_ok, GriddedModel};
use crate::text::{
    chars_of, decimal, parse_unsigned, push_decimal, push_str, push_zero_padded, unsigned_parse,
    zero_padded,
};
use crate::time::{
    lemma_recent_can_move_back, push_ymd, run_before, spec_floor_to_hours, spec_run_before, unix_epoch,
    utc_now, UtcDateTime,
};

verus! {

/// Mirrors of ECMWF open data.
#[derive(Clone, Copy, Debug, PartialEq, Eq)]
pub enum ECMWFDataSource {
    /// data.ecmwf.int, ECMWF's own portal
    ECMWF,
    /// Google Cloud Storage `ecmwf-open-data`
    GCP,
    /// AWS S3 `ecmwf-forecasts`
    AWS,
}

/// The ECMWF open-data products used here. Each is one kind of file, published
/// in a wave stream (`wave`/`waef`) and an atmosphere stream (`oper`/`enfo`) on
/// the same schedule.
#[derive(Clone, Copy, Debug, PartialEq, Eq)]
pub enum ECMWFProduct {
    /// IFS high resolution deterministic forecast (`ifs`, stream `wave`, type `fc`).
    IfsHres,
    /// IFS ensemble, perturbed members 1-50 in one file (`waef`, type `ef`).
    /// There is no published control.
    IfsEnsMembers,
    /// IFS ensemble probabilities (`waef`, type `ep`). 00z and 12z only.
    IfsEnsProbability,
    /// AIFS deterministic forecast (`aifs-single`, stream `wave`, type `fc`).
    AifsSingle,
    /// AIFS ensemble control (`aifs-ens`, stream `waef`, type `cf`).
    AifsEnsControl,
    /// AIFS ensemble perturbed members 1-50 in one file (`waef`, type `pf`).
    AifsEnsMembers,
    /// AIFS ensemble probabilities (`waef`, type `ep`).
    AifsEnsProbability,
}

/// Which of a product's two streams a file belongs to.
#[derive(Clone, Copy, Debug, PartialEq, Eq)]
pub enum StreamKind {
    Wave,
    Atmosphere,
}

pub open spec fn spec_ecmwf_url_root(source: ECMWFDataSource) -> Seq<char> {
    match source {
        ECMWFDataSource::ECMWF => "https://data.ecmwf.int/forecasts"@,
        ECMWFDataSource::GCP => "https://storage.googleapis.com/ecmwf-open-data"@,
        ECMWFDataSource::AWS => "https://ecmwf-forecasts.s3.eu-central-1.amazonaws.com"@,
    }
}

fn ecmwf_url_root(source: &ECMWFDataSource) -> (root: &'static str)
    ensures
        root@ == spec_ecmwf_url_root(*source),
{
    match source {
        ECMWFDataSource::ECMWF => "https://data.ecmwf.int/forecasts",
        ECMWFDataSource::GCP => "https://storage.googleapis.com/ecmwf-open-data",
        ECMWFDataSource::AWS => "https://ecmwf-forecasts.s3.eu-central-1.amazonaws.com",
    }
}

/// Every third hour from 0 to 144, then (on 00z and 12z runs) every sixth
/// hour from 150 to 360.
pub open spec fn ifs_hours(long_run: bool) -> Seq<usize> {
    Seq::new(49, |k: int| (3 * k) as usize) + if long_run {
        Seq::new(36, |k: int| (150 + 6 * k) as usize)
    } else {
        Seq::empty()
    }
}

/// Every sixth hour from 0 to 360.
pub open spec fn aifs_hours() -> Seq<usize> {
    Seq::new(61, |k: int| (6 * k) as usize)
}

/// IFS output comes every third hour from hour 0 to 144, then on the long
/// (00z and 12z) runs every sixth hour up to 360; AIFS output every sixth
/// hour from 0 to 360.
pub proof fn lemma_output_hours_spacing(long_run: bool, k: int)
    ensures
        ifs_hours(long_run)[0] == 0,
        0 <= k < 48 ==> ifs_hours(long_run)[k + 1] - ifs_hours(long_run)[k] == 3,
        ifs_hours(long_run)[48] == 144,
        ifs_hours(false).len() == 49,
        long_run ==> ifs_hours(true).len() == 85 && ifs_hours(true)[84] == 360,
        long_run && 48 <= k < 84 ==> ifs_hours(true)[k + 1] - ifs_hours(true)[k] == 6,
        aifs_hours()[0] == 0,
        aifs_hours().len() == 61 && aifs_hours()[60] == 360,
        0 <= k < 60 ==> aifs_hours()[k + 1] - aifs_hours()[k] == 6,
{
}

impl ECMWFProduct {
    pub open spec fn spec_model_directory(self) -> Seq<char> {
        match self {
            ECMWFProduct::IfsHres
            | ECMWFProduct::IfsEnsMembers
            | ECMWFProduct::IfsEnsProbability => "ifs"@,
            ECMWFProduct::AifsSingle => "aifs-single"@,
            ECMWFProduct::AifsEnsControl
            | ECMWFProduct::AifsEnsMembers
            | ECMWFProduct::AifsEnsProbability => "aifs-ens"@,
        }
    }

    fn model_directory(&self) -> (dir: &'static str)
        ensures
            dir@ == self.spec_model_directory(),
    {
        match self {
            ECMWFProduct::IfsHres
            | ECMWFProduct::IfsEnsMembers
            | ECMWFProduct::IfsEnsProbability => "ifs",
            ECMWFProduct::AifsSingle => "aifs-single",
            ECMWFProduct::AifsEnsControl
            | ECMWFProduct::AifsEnsMembers
            | ECMWFProduct::AifsEnsProbability => "aifs-ens",
        }
    }

    pub open spec fn is_deterministic(self) -> bool {
        self is IfsHres || self is AifsSingle
    }

    pub open spec fn spec_stream(self, kind: StreamKind) -> Seq<char> {
        match (kind, self.is_deterministic()) {
            (StreamKind::Wave, true) => "wave"@,
            (StreamKind::Wave, false) => "waef"@,
            (StreamKind::Atmosphere, true) => "oper"@,
            (StreamKind::Atmosphere, false) => "enfo"@,
        }
    }

    fn stream(&self, kind: StreamKind) -> (stream: &'static str)
        ensures
            stream@ == self.spec_stream(kind),
    {
        let deterministic = match self {
            ECMWFProduct::IfsHres | ECMWFProduct::AifsSingle => true,
            _ => false,
        };
        match (kind, deterministic) {
            (StreamKind::Wave, true) => "wave",
            (StreamKind::Wave, false) => "waef",
            (StreamKind::Atmosphere, true) => "oper",
            (StreamKind::Atmosphere, false) => "enfo",
        }
    }

    pub open spec fn spec_file_type(self) -> Seq<char> {
        match self {
            ECMWFProduct::IfsHres | ECMWFProduct::AifsSingle => "fc"@,
            ECMWFProduct::IfsEnsMembers => "ef"@,
            ECMWFProduct::AifsEnsControl => "cf"@,
            ECMWFProduct::AifsEnsMembers => "pf"@,
            ECMWFProduct::IfsEnsProbability | ECMWFProduct::AifsEnsProbability => "ep"@,
        }
    }

    fn file_type(&self) -> (file_type: &'static str)
        ensures
            file_type@ == self.spec_file_type(),
    {
        match self {
            ECMWFProduct::IfsHres | ECMWFProduct::AifsSingle => "fc",
            ECMWFProduct::IfsEnsMembers => "ef",
            ECMWFProduct::AifsEnsControl => "cf",
            ECMWFProduct::AifsEnsMembers => "pf",
            ECMWFProduct::IfsEnsProbability | ECMWFProduct::AifsEnsProbability => "ep",
        }
    }

    /// A product of the IFS model (as opposed to AIFS).
    pub open spec fn spec_is_ifs(self) -> bool {
        self is IfsHres || self is IfsEnsMembers || self is IfsEnsProbability
    }

    fn is_ifs(&self) -> (b: bool)
        ensures
            b == self.spec_is_ifs(),
    {
        match self {
            ECMWFProduct::IfsHres | ECMWFProduct::IfsEnsMembers | ECMWFProduct::IfsEnsProbability => true,
            _ => false,
        }
    }

    /// An ensemble probability product.
    pub open spec fn spec_is_probability(self) -> bool {
        self is IfsEnsProbability || self is AifsEnsProbability
    }

    fn is_probability(&self) -> (b: bool)
        ensures
            b == self.spec_is_probability(),
    {
        match self {
            ECMWFProduct::IfsEnsProbability | ECMWFProduct::AifsEnsProbability => true,
            _ => false,
        }
    }

    /// Hours after the run starts by which every file is published, measured
    /// on the 2026-09-22 runs with some margin.
    pub open spec fn spec_publication_delay_hours(self) -> int {
        match self {
            ECMWFProduct::IfsHres => 8,
            ECMWFProduct::IfsEnsMembers | ECMWFProduct::IfsEnsProbability => 10,
            ECMWFProduct::AifsSingle => 6,
            _ => 8,
        }
    }

    fn publication_delay_hours(&self) -> (hours: u32)
        ensures
            hours == self.spec_publication_delay_hours(),
            hours <= 10,
    {
        match self {
            ECMWFProduct::IfsHres => 8,
            ECMWFProduct::IfsEnsMembers | ECMWFProduct::IfsEnsProbability => 10,
            ECMWFProduct::AifsSingle => 6,
            _ => 8,
        }
    }

    /// Hours between runs that publish this product.
    pub open spec fn spec_run_interval_hours(self) -> int {
        match self {
            ECMWFProduct::IfsEnsProbability => 12,
            _ => 6,
        }
    }

    fn run_interval_hours(&self) -> (hours: u32)
        ensures
            hours == self.spec_run_interval_hours(),
            hours > 0,
    {
        match self {
            ECMWFProduct::IfsEnsProbability => 12,
            _ => 6,
        }
    }

    /// The file type names what a product's files hold, as ECMWF open data
    /// names it: `fc` for a deterministic forecast, `ep` for ensemble
    /// probabilities, `cf` for an ensemble control on its own and `pf` for
    /// perturbed members on their own; IFS publishes its ensemble members
    /// together as `ef`. Deterministic forecasts come in the `wave` and
    /// `oper` streams, all ensemble products in `waef` and `enfo`, and IFS
    /// products under the `ifs` directory.
    pub proof fn lemma_file_type_names_content(self)
        ensures
            (self.spec_file_type() == "fc"@) == self.is_deterministic(),
            (self.spec_file_type() == "ep"@) == self.spec_is_probability(),
            (self.spec_file_type() == "cf"@) == (self is AifsEnsControl),
            !self.is_deterministic() && !self.spec_is_probability() && !(self is AifsEnsControl)
                ==> self.spec_file_type() == if self.spec_is_ifs() {
                "ef"@
            } else {
                "pf"@
            },
            (self.spec_stream(StreamKind::Wave) == "wave"@) == (self.spec_file_type() == "fc"@),
            (self.spec_stream(StreamKind::Atmosphere) == "oper"@) == (self.spec_file_type() == "fc"@),
            (self.spec_stream(StreamKind::Wave) == "waef"@) != (self.spec_file_type() == "fc"@),
            (self.spec_model_directory() == "ifs"@) == self.spec_is_ifs(),
    {
        reveal_strlit("fc");
        reveal_strlit("ep");
        reveal_strlit("cf");
        reveal_strlit("ef");
        reveal_strlit("pf");
        reveal_strlit("wave");
        reveal_strlit("waef");
        reveal_strlit("oper");
        reveal_strlit("enfo");
        reveal_strlit("ifs");
        reveal_strlit("aifs-single");
        reveal_strlit("aifs-ens");
        assert("fc"@ != "ep"@ && "fc"@ != "cf"@ && "fc"@ != "ef"@ && "fc"@ != "pf"@) by {
            assert("fc"@[1] != "ep"@[1]);
            assert("fc"@[0] != "cf"@[0]);
            assert("fc"@[0] != "ef"@[0]);
            assert("fc"@[0] != "pf"@[0]);
        }
        assert("ep"@ != "cf"@ && "ep"@ != "ef"@ && "ep"@ != "pf"@) by {
            assert("ep"@[0] != "cf"@[0]);
            assert("ep"@[1] != "ef"@[1]);
            assert("ep"@[0] != "pf"@[0]);
        }
        assert("cf"@ != "ef"@ && "cf"@ != "pf"@) by {
            assert("cf"@[0] != "ef"@[0]);
            assert("cf"@[0] != "pf"@[0]);
        }
        assert("wave"@ != "waef"@) by {
            assert("wave"@[3] != "waef"@[3]);
        }
        assert("oper"@ != "enfo"@) by {
            assert("oper"@[0] != "enfo"@[0]);
        }
        assert("ifs"@ != "aifs-single"@ && "ifs"@ != "aifs-ens"@) by {
            assert("ifs"@.len() != "aifs-single"@.len());
            assert("ifs"@.len() != "aifs-ens"@.len());
        }
    }

    /// `run` is the start of the latest run of this product that is fully
    /// published by `date`: the publication delay earlier, floored to the
    /// run interval.
    pub open spec fn spec_closest_run(self, date: UtcDateTime, run: UtcDateTime) -> bool {
        spec_run_before(
            date,
            self.spec_publication_delay_hours(),
            self.spec_run_interval_hours(),
            run,
        )
    }

    /// The run that the search picks always publishes this product: its
    /// list of output hours is not empty (IFS probabilities come only from
    /// the 00z and 12z runs, which is where the search lands for them).
    pub proof fn lemma_closest_run_publishes(self, date: UtcDateTime, run: UtcDateTime)
        requires
            self.spec_closest_run(date, run),
        ensures
            self.spec_forecast_hours(run.hour as int).len() > 0,
            run.hour % (self.spec_run_interval_hours() as u32) == 0,
    {
        let interval = self.spec_run_interval_hours();
        let adjusted = choose|a: UtcDateTime|
            #![trigger spec_floor_to_hours(a, interval)]
            a.wf() && a.unix_seconds() == date.unix_seconds() - self.spec_publication_delay_hours() * 3600
                && run == spec_floor_to_hours(a, interval);
        let h = adjusted.hour as int;
        assert(0 <= h < 24);
        assert(run.hour as int == h - h % interval);
        assert((h - h % interval) % interval == 0);
        assert(ifs_hours(true).len() > 0 && ifs_hours(false).len() > 0 && aifs_hours().len() > 0);
    }

    /// The AIFS products live under `aifs-single` (its deterministic
    /// forecast) and `aifs-ens` (its ensemble).
    pub proof fn lemma_aifs_directories(self)
        ensures
            (self.spec_model_directory() == "aifs-single"@) == (!self.spec_is_ifs() && self.is_deterministic()),
            (self.spec_model_directory() == "aifs-ens"@) == (!self.spec_is_ifs() && !self.is_deterministic()),
    {
        reveal_strlit("ifs");
        reveal_strlit("aifs-single");
        reveal_strlit("aifs-ens");
        assert("ifs"@.len() != "aifs-single"@.len() && "ifs"@.len() != "aifs-ens"@.len()
            && "aifs-ens"@.len() != "aifs-single"@.len());
    }

    fn closest_model_run_date(&self, date: &UtcDateTime) -> (run: UtcDateTime)
        requires
            query_date_ok(*date),
        ensures
            run.wf(),
            self.spec_closest_run(*date, run),
    {
        run_before(date, self.publication_delay_hours(), self.run_interval_hours())
    }

    /// The output hours of the run starting at hour `run_hour` of its day.
    /// Probability files hold many steps each: the 240h file holds steps
    /// 12-240 and the 360h file 252-360.
    pub open spec fn spec_forecast_hours(self, run_hour: int) -> Seq<usize> {
        let long_run = run_hour % 12 == 0;
        if self.spec_is_probability() {
            if self.spec_is_ifs() && !long_run {
                Seq::empty()
            } else {
                seq![240usize, 360usize]
            }
        } else if self.spec_is_ifs() {
            ifs_hours(long_run)
        } else {
            aifs_hours()
        }
    }

    fn forecast_hours(&self, run: &UtcDateTime) -> (hours: Vec<usize>)
        ensures
            hours@ == self.spec_forecast_hours(run.hour as int),
    {
        let long_run = run.hour % 12 == 0;
        if self.is_probability() {
            if self.is_ifs() && !long_run {
                return Vec::new();
            } else {
                let mut v: Vec<usize> = Vec::new();
                v.push(240);
                v.push(360);
                proof {
                    assert(v@ =~= seq![240usize, 360usize]);
                }
                return v;
            }
        }
        let mut hours: Vec<usize> = Vec::new();
        if self.is_ifs() {
            let mut h: usize = 0;
            while h <= 144
                invariant
                    h % 3 == 0,
                    h <= 147,
                    hours@ =~= Seq::new((h / 3) as nat, |k: int| (3 * k) as usize),
                decreases 147 - h,
            {
                hours.push(h);
                h += 3;
            }
            if long_run {
                let mut h: usize = 150;
                while h <= 360
                    invariant
                        h % 6 == 0,
                        150 <= h <= 366,
                        hours@ =~= Seq::new(49, |k: int| (3 * k) as usize) + Seq::new(
                            ((h - 150) / 6) as nat,
                            |k: int| (150 + 6 * k) as usize,
                        ),
                    decreases 366 - h,
                {
                    hours.push(h);
                    h += 6;
                }
            }
            proof {
                assert(hours@ =~= ifs_hours(long_run));
            }
        } else {
            let mut h: usize = 0;
            while h <= 360
                invariant
                    h % 6 == 0,
                    h <= 366,
                    hours@ =~= Seq::new((h / 6) as nat, |k: int| (6 * k) as usize),
                decreases 366 - h,
            {
                hours.push(h);
                h += 6;
            }
        }
        hours
    }

    /// The URL of a file of the run starting at `run`, without the `.grib2` /
    /// `.index` extension.
    #[verifier::opaque]
    pub open spec fn spec_path_stem(
        self,
        kind: StreamKind,
        source: ECMWFDataSource,
        output_hour: usize,
        run: UtcDateTime,
    ) -> Seq<char> {
        let date = run.spec_ymd();
        let hour = zero_padded(run.hour as nat, 2);
        let stream = self.spec_stream(kind);
        spec_ecmwf_url_root(source) + "/"@ + date + "/"@ + hour + "z/"@
            + self.spec_model_directory() + "/0p25/"@ + stream + "/"@ + date + hour + "0000-"@
            + decimal(output_hour as nat) + "h-"@ + stream + "-"@ + self.spec_file_type()
    }

    /// The file stem for `output_hour` of the run published by `query_date`
    /// (now when None); also returns that run.
    #[verifier::spinoff_prover]
    #[verifier::rlimit(40)]
    fn path_stem(
        &self,
        kind: StreamKind,
        source: &ECMWFDataSource,
        output_hour: usize,
        query_date: Option<UtcDateTime>,
    ) -> (r: (String, UtcDateTime))
        requires
            query_date matches Some(d) ==> query_date_ok(d),
        ensures
            r.0@ == self.spec_path_stem(kind, *source, output_hour, r.1),
            r.1.wf(),
            match query_date {
                Some(d) => self.spec_closest_run(d, r.1),
                None => exists|now: UtcDateTime|
                    #![trigger self.spec_closest_run(now, r.1)]
                    now.wf() && now.unix_seconds() >= 0 && self.spec_closest_run(now, r.1),
            },
    {
        let date = match query_date {
            Some(d) => d,
            None => {
                let now = match utc_now() {
                    Some(t) => t,
                    None => unix_epoch(),
                };
                proof {
                    lemma_recent_can_move_back(now.unix_seconds(), 10);
                }
                now
            },
        };
        let run = self.closest_model_run_date(&date);
        let stream = self.stream(kind);
        let mut url = String::new();
        push_str(&mut url, ecmwf_url_root(source));
        push_str(&mut url, "/");
        push_ymd(&mut url, &run);
        push_str(&mut url, "/");
        push_zero_padded(&mut url, run.hour as u64, 2);
        push_str(&mut url, "z/");
        push_str(&mut url, self.model_directory());
        push_str(&mut url, "/0p25/");
        push_str(&mut url, stream);
        push_str(&mut url, "/");
        push_ymd(&mut url, &run);
        push_zero_padded(&mut url, run.hour as u64, 2);
        push_str(&mut url, "0000-");
        push_decimal(&mut url, output_hour as u64);
        push_str(&mut url, "h-");
        push_str(&mut url, stream);
        push_str(&mut url, "-");
        push_str(&mut url, self.file_type());
        proof {
            reveal(ECMWFProduct::spec_path_stem);
            assert(url@ =~= self.spec_path_stem(kind, *source, output_hour, run));
        }
        (url, run)
    }
}

/// An ECMWF wave product (streams `wave` / `waef`).
pub struct ECMWFWaveModel {
    pub product: ECMWFProduct,
    pub id: &'static str,
    pub name: &'static str,
    pub description: &'static str,
}

impl ECMWFWaveModel {

    pub fn ifs_hres() -> (m: Self)
        ensures
            m.product == ECMWFProduct::IfsHres,
            m.id@ == "ifs.wave.fc"@,
            m.name@ == "ECMWF IFS Wave"@,
            m.description@ == "ECMWF IFS high resolution wave forecast (ECWAM), 0.25 degree"@,
    {
        ECMWFWaveModel {
            product: ECMWFProduct::IfsHres,
            id: "ifs.wave.fc",
            name: "ECMWF IFS Wave",
            description: "ECMWF IFS high resolution wave forecast (ECWAM), 0.25 degree",
        }
    }

    pub fn ifs_ens_members() -> (m: Self)
        ensures
            m.product == ECMWFProduct::IfsEnsMembers,
            m.id@ == "ifs.waef.ef"@,
            m.name@ == "ECMWF IFS Wave Ensemble"@,
            m.description@ == "ECMWF IFS ensemble wave forecast, members 1-50, 0.25 degree"@,
    {
        ECMWFWaveModel {
            product: ECMWFProduct::IfsEnsMembers,
            id: "ifs.waef.ef",
            name: "ECMWF IFS Wave Ensemble",
            description: "ECMWF IFS ensemble wave forecast, members 1-50, 0.25 degree",
        }
    }

    pub fn ifs_ens_probability() -> (m: Self)
        ensures
            m.product == ECMWFProduct::IfsEnsProbability,
            m.id@ == "ifs.waef.ep"@,
            m.name@ == "ECMWF IFS Wave Ensemble Probabilities"@,
            m.description@ == "ECMWF IFS ensemble wave height exceedance probabilities, 0.25 degree"@,
    {
        ECMWFWaveModel {
            product: ECMWFProduct::IfsEnsProbability,
            id: "ifs.waef.ep",
            name: "ECMWF IFS Wave Ensemble Probabilities",
            description: "ECMWF IFS ensemble wave height exceedance probabilities, 0.25 degree",
        }
    }

    pub fn aifs_single() -> (m: Self)
        ensures
            m.product == ECMWFProduct::AifsSingle,
            m.id@ == "aifs-single.wave.fc"@,
            m.name@ == "ECMWF AIFS Wave"@,
            m.description@ == "ECMWF AIFS deterministic wave forecast, 0.25 degree"@,
    {
        ECMWFWaveModel {
            product: ECMWFProduct::AifsSingle,
            id: "aifs-single.wave.fc",
            name: "ECMWF AIFS Wave",
            description: "ECMWF AIFS deterministic wave forecast, 0.25 degree",
        }
    }

    pub fn aifs_ens_control() -> (m: Self)
        ensures
            m.product == ECMWFProduct::AifsEnsControl,
            m.id@ == "aifs-ens.waef.cf"@,
            m.name@ == "ECMWF AIFS Wave Ensemble Control"@,
            m.description@ == "ECMWF AIFS ensemble wave forecast, control member, 0.25 degree"@,
    {
        ECMWFWaveModel {
            product: ECMWFProduct::AifsEnsControl,
            id: "aifs-ens.waef.cf",
            name: "ECMWF AIFS Wave Ensemble Control",
            description: "ECMWF AIFS ensemble wave forecast, control member, 0.25 degree",
        }
    }

    pub fn aifs_ens_members() -> (m: Self)
        ensures
            m.product == ECMWFProduct::AifsEnsMembers,
            m.id@ == "aifs-ens.waef.pf"@,
            m.name@ == "ECMWF AIFS Wave Ensemble"@,
            m.description@ == "ECMWF AIFS ensemble wave forecast, members 1-50, 0.25 degree"@,
    {
        ECMWFWaveModel {
            product: ECMWFProduct::AifsEnsMembers,
            id: "aifs-ens.waef.pf",
            name: "ECMWF AIFS Wave Ensemble",
            description: "ECMWF AIFS ensemble wave forecast, members 1-50, 0.25 degree",
        }
    }

    pub fn aifs_ens_probability() -> (m: Self)
        ensures
            m.product == ECMWFProduct::AifsEnsProbability,
            m.id@ == "aifs-ens.waef.ep"@,
            m.name@ == "ECMWF AIFS Wave Ensemble Probabilities"@,
            m.description@ == "ECMWF AIFS ensemble wave height and period exceedance probabilities, 0.25 degree"@,
    {
        ECMWFWaveModel {
            product: ECMWFProduct::AifsEnsProbability,
            id: "aifs-ens.waef.ep",
            name: "ECMWF AIFS Wave Ensemble Probabilities",
            description: "ECMWF AIFS ensemble wave height and period exceedance probabilities, 0.25 degree",
        }
    }
}

impl GriddedModel for ECMWFWaveModel {
    type Source = ECMWFDataSource;

    open spec fn spec_closest_run(&self, date: UtcDateTime, run: UtcDateTime) -> bool {
        self.product.spec_closest_run(date, run)
    }

    open spec fn spec_url(&self, source: &ECMWFDataSource, output_hour: usize, run: UtcDateTime) -> Seq<char> {
        self.product.spec_path_stem(StreamKind::Wave, *source, output_hour, run) + ".grib2"@
    }

    fn id(&self) -> (id: &'static str)
        ensures
            id == self.id,
    {
        self.id
    }

    fn name(&self) -> (name: &'static str)
        ensures
            name == self.name,
    {
        self.name
    }

    fn description(&self) -> (description: &'static str)
        ensures
            description == self.description,
    {
        self.description
    }

    fn closest_model_run_date(&self, date: &UtcDateTime) -> (run: UtcDateTime) {
        self.product.closest_model_run_date(date)
    }

    fn forecast_hours(&self, run: &UtcDateTime) -> (hours: Vec<usize>)
        ensures
            hours@ == self.product.spec_forecast_hours(run.hour as int),
    {
        self.product.forecast_hours(run)
    }

    fn url_root(&self, source: &ECMWFDataSource) -> (root: &'static str)
        ensures
            root@ == spec_ecmwf_url_root(*source),
    {
        ecmwf_url_root(source)
    }

    #[verifier::spinoff_prover]
    fn create_url(
        &self,
        source: &ECMWFDataSource,
        output_hour: usize,
        query_date: Option<UtcDateTime>,
    ) -> (url: String) {
        let (mut url, run) = self.product.path_stem(StreamKind::Wave, source, output_hour, query_date);
        push_str(&mut url, ".grib2");
        proof {
            assert(url@ =~= self.spec_url(source, output_hour, run));
            if query_date is None {
                let now = choose|now: UtcDateTime|
                    #![trigger self.product.spec_closest_run(now, run)]
                    now.wf() && now.unix_seconds() >= 0 && self.product.spec_closest_run(now, run);
                assert(self.spec_closest_run(now, run));
            }
        }
        url
    }

    /// The URL of the `.index` file that lists the messages of the file.
    #[verifier::spinoff_prover]
    fn create_index_url(
        &self,
        source: &ECMWFDataSource,
        output_hour: usize,
        query_date: Option<UtcDateTime>,
    ) -> (url: String)
        ensures
            exists|run: UtcDateTime|
                #![trigger self.product.spec_path_stem(StreamKind::Wave, *source, output_hour, run)]
                url@ == self.product.spec_path_stem(StreamKind::Wave, *source, output_hour, run)
                    + ".index"@ && match query_date {
                    Some(d) => self.spec_closest_run(d, run),
                    None => exists|now: UtcDateTime|
                        #![trigger self.spec_closest_run(now, run)]
                        now.wf() && now.unix_seconds() >= 0 && self.spec_closest_run(now, run),
                },
    {
        let (mut url, run) = self.product.path_stem(StreamKind::Wave, source, output_hour, query_date);
        push_str(&mut url, ".index");
        proof {
            assert(url@ =~= self.product.spec_path_stem(StreamKind::Wave, *source, output_hour, run) + ".index"@);
            if query_date is None {
                let now = choose|now: UtcDateTime|
                    #![trigger self.product.spec_closest_run(now, run)]
                    now.wf() && now.unix_seconds() >= 0 && self.product.spec_closest_run(now, run);
                assert(self.spec_closest_run(now, run));
            }
        }
        url
    }
}

/// The atmosphere stream (`oper`/`enfo`) matching an ECMWF wave product, for
/// 10 m wind (`ECMWFField::WindU` / `WindV`). Same grid, steps and publication
/// schedule as the wave files. There are no wind probability products here.
pub struct ECMWFWindModel {
    pub product: ECMWFProduct,
    pub id: &'static str,
    pub name: &'static str,
    pub description: &'static str,
}

impl ECMWFWindModel {

    pub fn ifs_hres() -> (m: Self)
        ensures
            m.product == ECMWFProduct::IfsHres,
            m.id@ == "ifs.oper.fc"@,
            m.name@ == "ECMWF IFS"@,
            m.description@ == "ECMWF IFS high resolution forecast, 0.25 degree"@,
    {
        ECMWFWindModel {
            product: ECMWFProduct::IfsHres,
            id: "ifs.oper.fc",
            name: "ECMWF IFS",
            description: "ECMWF IFS high resolution forecast, 0.25 degree",
        }
    }

    pub fn ifs_ens_members() -> (m: Self)
        ensures
            m.product == ECMWFProduct::IfsEnsMembers,
            m.id@ == "ifs.enfo.ef"@,
            m.name@ == "ECMWF IFS Ensemble"@,
            m.description@ == "ECMWF IFS ensemble forecast, members 1-50, 0.25 degree"@,
    {
        ECMWFWindModel {
            product: ECMWFProduct::IfsEnsMembers,
            id: "ifs.enfo.ef",
            name: "ECMWF IFS Ensemble",
            description: "ECMWF IFS ensemble forecast, members 1-50, 0.25 degree",
        }
    }

    pub fn aifs_single() -> (m: Self)
        ensures
            m.product == ECMWFProduct::AifsSingle,
            m.id@ == "aifs-single.oper.fc"@,
            m.name@ == "ECMWF AIFS"@,
            m.description@ == "ECMWF AIFS deterministic forecast, 0.25 degree"@,
    {
        ECMWFWindModel {
            product: ECMWFProduct::AifsSingle,
            id: "aifs-single.oper.fc",
            name: "ECMWF AIFS",
            description: "ECMWF AIFS deterministic forecast, 0.25 degree",
        }
    }

    pub fn aifs_ens_control() -> (m: Self)
        ensures
            m.product == ECMWFProduct::AifsEnsControl,
            m.id@ == "aifs-ens.enfo.cf"@,
            m.name@ == "ECMWF AIFS Ensemble Control"@,
            m.description@ == "ECMWF AIFS ensemble forecast, control member, 0.25 degree"@,
    {
        ECMWFWindModel {
            product: ECMWFProduct::AifsEnsControl,
            id: "aifs-ens.enfo.cf",
            name: "ECMWF AIFS Ensemble Control",
            description: "ECMWF AIFS ensemble forecast, control member, 0.25 degree",
        }
    }

    pub fn aifs_ens_members() -> (m: Self)
        ensures
            m.product == ECMWFProduct::AifsEnsMembers,
            m.id@ == "aifs-ens.enfo.pf"@,
            m.name@ == "ECMWF AIFS Ensemble"@,
            m.description@ == "ECMWF AIFS ensemble forecast, members 1-50, 0.25 degree"@,
    {
        ECMWFWindModel {
            product: ECMWFProduct::AifsEnsMembers,
            id: "aifs-ens.enfo.pf",
            name: "ECMWF AIFS Ensemble",
            description: "ECMWF AIFS ensemble forecast, members 1-50, 0.25 degree",
        }
    }

    /// The wind model for the same run and members as `wave`, or None for the
    /// probability products.
    pub fn for_wave_model(wave: &ECMWFWaveModel) -> (wind: Option<Self>)
        ensures
            match wind {
                Some(w) => !wave.product.spec_is_probability() && w.product == wave.product,
                None => wave.product.spec_is_probability(),
            },
    {
        match wave.product {
            ECMWFProduct::IfsHres => Some(Self::ifs_hres()),
            ECMWFProduct::IfsEnsMembers => Some(Self::ifs_ens_members()),
            ECMWFProduct::AifsSingle => Some(Self::aifs_single()),
            ECMWFProduct::AifsEnsControl => Some(Self::aifs_ens_control()),
            ECMWFProduct::AifsEnsMembers => Some(Self::aifs_ens_members()),
            ECMWFProduct::IfsEnsProbability | ECMWFProduct::AifsEnsProbability => None,
        }
    }
}

impl GriddedModel for ECMWFWindModel {
    type Source = ECMWFDataSource;

    open spec fn spec_closest_run(&self, date: UtcDateTime, run: UtcDateTime) -> bool {
        self.product.spec_closest_run(date, run)
    }

    open spec fn spec_url(&self, source: &ECMWFDataSource, output_hour: usize, run: UtcDateTime) -> Seq<char> {
        self.product.spec_path_stem(StreamKind::Atmosphere, *source, output_hour, run) + ".grib2"@
    }

    fn id(&self) -> (id: &'static str)
        ensures
            id == self.id,
    {
        self.id
    }

    fn name(&self) -> (name: &'static str)
        ensures
            name == self.name,
    {
        self.name
    }

    fn description(&self) -> (description: &'static str)
        ensures
            description == self.description,
    {
        self.description
    }

    fn closest_model_run_date(&self, date: &UtcDateTime) -> (run: UtcDateTime) {
        self.product.closest_model_run_date(date)
    }

    fn forecast_hours(&self, run: &UtcDateTime) -> (hours: Vec<usize>)
        ensures
            hours@ == self.product.spec_forecast_hours(run.hour as int),
    {
        self.product.forecast_hours(run)
    }

    fn url_root(&self, source: &ECMWFDataSource) -> (root: &'static str)
        ensures
            root@ == spec_ecmwf_url_root(*source),
    {
        ecmwf_url_root(source)
    }

    #[verifier::spinoff_prover]
    fn create_url(
        &self,
        source: &ECMWFDataSource,
        output_hour: usize,
        query_date: Option<UtcDateTime>,
    ) -> (url: String) {
        let (mut url, run) = self.product.path_stem(StreamKind::Atmosphere, source, output_hour, query_date);
        push_str(&mut url, ".grib2");
        proof {
            assert(url@ =~= self.spec_url(source, output_hour, run));
            if query_date is None {
                let now = choose|now: UtcDateTime|
                    #![trigger self.product.spec_closest_run(now, run)]
                    now.wf() && now.unix_seconds() >= 0 && self.product.spec_closest_run(now, run);
                assert(self.spec_closest_run(now, run));
            }
        }
        url
    }

    /// The URL of the `.index` file that lists the messages of the file.
    #[verifier::spinoff_prover]
    fn create_index_url(
        &self,
        source: &ECMWFDataSource,
        output_hour: usize,
        query_date: Option<UtcDateTime>,
    ) -> (url: String)
        ensures
            exists|run: UtcDateTime|
                #![trigger self.product.spec_path_stem(StreamKind::Atmosphere, *source, output_hour, run)]
                url@ == self.product.spec_path_stem(StreamKind::Atmosphere, *source, output_hour, run)
                    + ".index"@ && match query_date {
                    Some(d) => self.spec_closest_run(d, run),
                    None => exists|now: UtcDateTime|
                        #![trigger self.spec_closest_run(now, run)]
                        now.wf() && now.unix_seconds() >= 0 && self.spec_closest_run(now, run),
                },
    {
        let (mut url, run) = self.product.path_stem(StreamKind::Atmosphere, source, output_hour, query_date);
        push_str(&mut url, ".index");
        proof {
            assert(url@ =~= self.product.spec_path_stem(StreamKind::Atmosphere, *source, output_hour, run) + ".index"@);
            if query_date is None {
                let now = choose|now: UtcDateTime|
                    #![trigger self.product.spec_closest_run(now, run)]
                    now.wf() && now.unix_seconds() >= 0 && self.product.spec_closest_run(now, run);
                assert(self.spec_closest_run(now, run));
            }
        }
        url
    }
}


/// Which ensemble members to select from an index. Entries without a member
/// number (deterministic, control and probability files) always match.
#[derive(Clone, Debug, PartialEq, Eq)]
pub enum MemberSelection {
    All,
    Only(Vec<u8>),
}

impl Default for MemberSelection {
    fn default() -> (s: Self)
        ensures
            s is All,
    {
        MemberSelection::All
    }
}

/// Picks messages out of an ECMWF `.index` file so only those bytes are
/// fetched.
#[derive(Clone, Debug, PartialEq)]
pub struct ECMWFIndexQuery {
    /// Fields to keep. Empty keeps every field.
    pub fields: Vec<ECMWFField>,
    pub members: MemberSelection,
    /// MARS steps to keep, e.g. `"24"` or `"120-168"`. None keeps every step.
    /// Probability files hold many steps each.
    pub steps: Option<Vec<String>>,
}

impl Default for ECMWFIndexQuery {
    fn default() -> (q: Self)
        ensures
            q.fields@.len() == 0,
            q.members is All,
            q.steps is None,
    {
        ECMWFIndexQuery { fields: Vec::new(), members: MemberSelection::All, steps: None }
    }
}

/// Every entry with a known length ends within `u64`.
pub open spec fn entries_fit(entries: Seq<IndexEntry>) -> bool {
    forall|i: int|
        0 <= i < entries.len() ==> match (#[trigger] entries[i]).length {
            Some(l) => entries[i].offset + l <= u64::MAX,
            None => true,
        }
}

impl ECMWFIndexQuery {
    pub open spec fn spec_param_matches(self, var: Option<String>) -> bool {
        self.fields@.len() == 0 || match var {
            Some(param) => exists|i: int|
                0 <= i < self.fields@.len() && (#[trigger] self.fields@[i]).spec_mars_param()
                    == param@,
            None => false,
        }
    }

    pub open spec fn spec_member_matches(self, number: Option<String>) -> bool {
        match (self.members, number) {
            (MemberSelection::All, _) => true,
            (_, None) => true,
            (MemberSelection::Only(members), Some(n)) => match unsigned_parse(n@, 255) {
                Some(v) => members@.contains(v as u8),
                None => false,
            },
        }
    }

    pub open spec fn spec_step_matches(self, forecast_time: Option<String>) -> bool {
        match (self.steps, forecast_time) {
            (None, _) => true,
            (Some(steps), Some(step)) => exists|i: int|
                0 <= i < steps@.len() && (#[trigger] steps@[i])@ == step@,
            (Some(_), None) => false,
        }
    }

    /// An entry matches when its parameter is one of the fields, its member
    /// is selected, and its step is one of the steps.
    pub open spec fn spec_matches(self, entry: IndexEntry) -> bool {
        self.spec_param_matches(entry.var) && self.spec_member_matches(entry.number)
            && self.spec_step_matches(entry.forecast_time)
    }

    /// An entry without a member number passes any member selection: it
    /// matches exactly when its parameter and step do.
    pub proof fn lemma_unnumbered_entries_match(self, entry: IndexEntry)
        requires
            entry.number is None,
        ensures
            self.spec_matches(entry) <==> self.spec_param_matches(entry.var)
                && self.spec_step_matches(entry.forecast_time),
    {
    }

    /// A query with no fields, all members and no steps keeps every entry.
    pub proof fn lemma_open_query_matches_all(self, entry: IndexEntry)
        requires
            self.fields@.len() == 0,
            self.members == MemberSelection::All,
            self.steps is None,
        ensures
            self.spec_matches(entry),
    {
    }

    fn param_matches(&self, var: &Option<String>) -> (b: bool)
        ensures
            b == self.spec_param_matches(*var),
    {
        if self.fields.len() == 0 {
            return true;
        }
        match var.as_ref() {
            None => false,
            Some(param) => {
                let mut i: usize = 0;
                while i < self.fields.len()
                    invariant
                        i <= self.fields.len(),
                        *var == Some(*param),
                        forall|k: int|
                            0 <= k < i ==> (#[trigger] self.fields@[k]).spec_mars_param()
                                != param@,
                    decreases self.fields.len() - i,
                {
                    let name = self.fields[i].mars_param();
                    if name == *param {
                        proof {
                            assert((self.fields@[i as int]).spec_mars_param() == param@);

                        }
                        return true;
                    }
                    i += 1;
                }
                false
            },
        }
    }

    fn member_matches(&self, number: &Option<String>) -> (b: bool)
        ensures
            b == self.spec_member_matches(*number),
    {
        let members = match &self.members {
            MemberSelection::All => {
                return true;
            },
            MemberSelection::Only(members) => members,
        };
        match number.as_ref() {
            None => true,
            Some(n) => {
                let chars = chars_of(n.as_str());
                match parse_unsigned(&chars, 0, chars.len(), 255) {
                    Some(v) => {
                        proof {
                            assert(chars@.subrange(0, chars.len() as int) =~= chars@);
                        }
                        let v8 = v as u8;
                        let mut i: usize = 0;
                        while i < members.len()
                            invariant
                                i <= members.len(),
                                self.members == MemberSelection::Only(*members),
                                *number == Some(*n),
                                unsigned_parse(n@, 255) == Some(v as nat),
                                v <= 255,
                                v8 == v as u8,
                                forall|k: int| 0 <= k < i ==> members@[k] != v8,
                            decreases members.len() - i,
                        {
                            if members[i] == v8 {
                                proof {
                                    assert(members@[i as int] == v8);
                                    assert(members@.contains(v8));
                                    assert(self.members->0 == *members);
                                    assert(number->0 == *n);
                                    assert((self.members->0)@.contains(v as u8));
                                    assert(self.spec_member_matches(*number));
                                }
                                return true;
                            }
                            i += 1;
                        }
                        false
                    },
                    None => {
                        proof {
                            assert(chars@.subrange(0, chars.len() as int) =~= chars@);
                        }
                        false
                    },
                }
            },
        }
    }

    fn step_matches(&self, forecast_time: &Option<String>) -> (b: bool)
        ensures
            b == self.spec_step_matches(*forecast_time),
    {
        let steps = match self.steps.as_ref() {
            None => {
                return true;
            },
            Some(steps) => steps,
        };
        match forecast_time.as_ref() {
            None => false,
            Some(step) => {
                let mut i: usize = 0;
                while i < steps.len()
                    invariant
                        i <= steps.len(),
                        self.steps == Some(*steps),
                        *forecast_time == Some(*step),
                        forall|k: int| 0 <= k < i ==> (#[trigger] steps@[k])@ != step@,
                    decreases steps.len() - i,
                {
                    if steps[i] == *step {
                        proof {
                            assert((steps@[i as int])@ == step@);
                            assert(self.steps->0 == *steps);
                            assert((self.steps->0)@[i as int]@ == step@);
                            assert(forecast_time->0 == *step);
                            assert(self.spec_step_matches(*forecast_time));
                        }
                        return true;
                    }
                    i += 1;
                }
                false
            },
        }
    }

    pub fn matches(&self, entry: &IndexEntry) -> (b: bool)
        ensures
            b == self.spec_matches(*entry),
    {
        let param = self.param_matches(&entry.var);
        let member = self.member_matches(&entry.number);
        let step = self.step_matches(&entry.forecast_time);
        param && member && step
    }

    /// Byte ranges of the matching entries that have a known length, in file
    /// order.
    pub open spec fn spec_select(self, entries: Seq<IndexEntry>) -> Seq<ByteRange>
        decreases entries.len(),
    {
        if entries.len() == 0 {
            Seq::empty()
        } else {
            let prev = self.spec_select(entries.drop_last());
            let e = entries.last();
            if self.spec_matches(e) && e.length is Some {
                prev.push(ByteRange { offset: e.offset, length: e.length->0 })
            } else {
                prev
            }
        }
    }

    /// Byte ranges of the matching messages, in file order.
    pub fn select(&self, entries: &[IndexEntry]) -> (ranges: Vec<ByteRange>)
        ensures
            ranges@ == self.spec_select(entries@),
    {
        let mut ranges: Vec<ByteRange> = Vec::new();
        let mut i: usize = 0;
        while i < entries.len()
            invariant
                i <= entries.len(),
                ranges@ == self.spec_select(entries@.take(i as int)),
            decreases entries.len() - i,
        {
            proof {
                assert(entries@.take(i + 1).drop_last() =~= entries@.take(i as int));
                assert(entries@.take(i + 1).last() == entries@[i as int]);
            }
            if self.matches(&entries[i]) {
                match ByteRange::from_index_entry(&entries[i]) {
                    Some(r) => ranges.push(r),
                    None => {},
                }
            }
            i += 1;
        }
        proof {
            assert(entries@.take(i as int) =~= entries@);
        }
        ranges
    }

    proof fn lemma_select_fits(self, entries: Seq<IndexEntry>)
        requires
            entries_fit(entries),
        ensures
            ranges_fit(self.spec_select(entries), 0),
        decreases entries.len(),
    {
        if entries.len() > 0 {
            let t = entries.drop_last();
            assert forall|i: int| 0 <= i < t.len() implies match (#[trigger] t[i]).length {
                Some(l) => t[i].offset + l <= u64::MAX,
                None => true,
            } by {
                assert(t[i] == entries[i]);
            }
            self.lemma_select_fits(t);
            assert(entries.last() == entries[entries.len() - 1]);
        }
    }

    /// Like `select`, with adjacent messages merged into single requests.
    pub fn select_coalesced(&self, entries: &[IndexEntry]) -> (ranges: Vec<ByteRange>)
        requires
            entries_fit(entries@),
        ensures
            exists|p: Seq<ByteRange>|
                {
                    &&& sorted_by_offset(p)
                    &&& p.to_multiset() == self.spec_select(entries@).to_multiset()
                    &&& ranges@ == merge_sorted(p, 0)
                },
            separated(ranges@, 0),
            forall|k: int|
                0 <= k < self.spec_select(entries@).len() ==> held_by(
                    ranges@,
                    #[trigger] self.spec_select(entries@)[k],
                ),
            forall|j: int|
                0 <= j < ranges.len() ==> starts_at_input(
                    self.spec_select(entries@),
                    #[trigger] ranges@[j],
                ) && ends_at_input(self.spec_select(entries@), ranges@[j]),
    {
        proof {
            self.lemma_select_fits(entries@);
        }
        coalesce_ranges(self.select(entries), 0)
    }
}

} // verus!

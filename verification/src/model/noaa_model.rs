//! NOAA model output schedules and data mirrors.

use vstd::prelude::*;

use crate::model::gridded_model::query_date_ok;
use crate::text::{ascii_lower, chars_of, has_substring, contains, push_str, to_ascii_lower};
use crate::time::UtcDateTime;

verus! {

/// An unrecognised data source name; holds the message shown to users.
#[derive(Debug, Clone)]
pub struct ModelDataSourceError(pub String);

/// The mirrors that NOAA model output is published on.
#[derive(Debug, Clone, Copy, PartialEq, Eq, PartialOrd, Ord)]
pub enum ModelDataSource {
    NODDAWS,
    NODDGCP,
    NOMADS,
}

/// The source a (case-insensitive) name refers to: a name that mentions AWS
/// or Amazon, Google Cloud, or NOMADS/NOAA, checked in that order.
pub open spec fn source_for_name(name: Seq<char>) -> Option<ModelDataSource> {
    let l = ascii_lower(name);
    if has_substring(l, "aws"@) || has_substring(l, "amazon"@) {
        Some(ModelDataSource::NODDAWS)
    } else if has_substring(l, "gcp"@) || has_substring(l, "gcs"@) || has_substring(
        l,
        "google"@,
    ) {
        Some(ModelDataSource::NODDGCP)
    } else if has_substring(l, "nomads"@) || has_substring(l, "noaa"@) {
        Some(ModelDataSource::NOMADS)
    } else {
        None
    }
}

/// Whether the lower-cased name contains `keyword`.
fn mentions(lowered: &Vec<char>, keyword: &str) -> (b: bool)
    ensures
        b == has_substring(lowered@, keyword@),
{
    let k = chars_of(keyword);
    contains(lowered, &k)
}

impl ModelDataSource {
    /// Recognises a data source by name. The keywords are matched against
    /// the name with ASCII letters lower-cased; since none of them holds a
    /// letter whose Unicode lower case differs from its ASCII one, this
    /// matches a full Unicode lower-casing of the name.
    pub fn from_name(value: &str) -> (r: Result<ModelDataSource, ModelDataSourceError>)
        ensures
            match r {
                Ok(s) => source_for_name(value@) == Some(s),
                Err(e) => source_for_name(value@) is None && e.0@ == "Unknown data source: "@
                    + value@,
            },
    {
        let chars = chars_of(value);
        let lowered = to_ascii_lower(&chars);
        if mentions(&lowered, "aws") || mentions(&lowered, "amazon") {
            Ok(ModelDataSource::NODDAWS)
        } else if mentions(&lowered, "gcp") || mentions(&lowered, "gcs") || mentions(
            &lowered,
            "google",
        ) {
            Ok(ModelDataSource::NODDGCP)
        } else if mentions(&lowered, "nomads") || mentions(&lowered, "noaa") {
            Ok(ModelDataSource::NOMADS)
        } else {
            let mut message = String::new();
            push_str(&mut message, "Unknown data source: ");
            push_str(&mut message, value);
            Err(ModelDataSourceError(message))
        }
    }
}

/// Conversion by name, as `from_name`.
impl<'a> TryFrom<&'a str> for ModelDataSource {
    type Error = ModelDataSourceError;

    fn try_from(value: &'a str) -> (r: Result<ModelDataSource, ModelDataSourceError>)
        ensures
            match r {
                Ok(s) => source_for_name(value@) == Some(s),
                Err(e) => source_for_name(value@) is None && e.0@ == "Unknown data source: "@
                    + value@,
            },
    {
        ModelDataSource::from_name(value)
    }
}

/// The conversion's result is stated on `try_from` itself: the error holds
/// a `String`, which a spec function cannot build.
impl<'a> vstd::std_specs::convert::TryFromSpecImpl<&'a str> for ModelDataSource {
    open spec fn obeys_try_from_spec() -> bool {
        false
    }

    open spec fn try_from_spec(value: &'a str) -> Result<ModelDataSource, ModelDataSourceError> {
        arbitrary()
    }
}



/// How often a NOAA model writes an output time step.
#[derive(Debug, Clone, Copy, PartialEq, Eq)]
pub enum ModelTimeOutputResolution {
    Hourly,
    /// Hourly output up to the cutoff hour, three hourly after it.
    HybridHourlyThreeHourly(usize),
    ThreeHourly,
    /// Three hourly output up to the cutoff hour, six hourly after it.
    HybridThreeHourlySixHourly(usize),
}

impl ModelTimeOutputResolution {
    /// The schedule its name gives: output starts at hour 0, and step
    /// `i + 1` comes one hour after step `i` for hourly output, three hours
    /// after it for three hourly output, six for six hourly output, and for
    /// a hybrid schedule the first spacing up to its cutoff, the second after.
    pub proof fn lemma_output_spacing(self, i: int)
        requires
            i >= 0,
            self matches ModelTimeOutputResolution::HybridThreeHourlySixHourly(c) ==> c % 3 == 0,
        ensures
            self.spec_hour_for_index(0) == 0,
            self.spec_hour_for_index(i + 1) - self.spec_hour_for_index(i) == match self {
            ModelTimeOutputResolution::Hourly => 1int,
            ModelTimeOutputResolution::HybridHourlyThreeHourly(c) => if i < c {
                1int
            } else {
                3int
            },
            ModelTimeOutputResolution::ThreeHourly => 3int,
            ModelTimeOutputResolution::HybridThreeHourlySixHourly(c) => if 3 * (i + 1) <= c {
                3int
            } else {
                6int
            },
            },
    {
    }

    /// The forecast hour written at output step `index`.
    pub open spec fn spec_hour_for_index(self, index: int) -> int {
        match self {
            ModelTimeOutputResolution::Hourly => index,
            ModelTimeOutputResolution::HybridHourlyThreeHourly(cutoff) => {
                if index <= cutoff {
                    index
                } else {
                    cutoff + (index - cutoff) * 3
                }
            },
            ModelTimeOutputResolution::ThreeHourly => index * 3,
            ModelTimeOutputResolution::HybridThreeHourlySixHourly(cutoff) => {
                if index * 3 <= cutoff {
                    index * 3
                } else {
                    cutoff + ((index * 3 - cutoff) / 3) * 6
                }
            },
        }
    }

    /// The output step that holds forecast hour `hour`, or the last step
    /// before it when no step falls exactly on it.
    pub open spec fn spec_index_for_hour(self, hour: int) -> int {
        match self {
            ModelTimeOutputResolution::Hourly => hour,
            ModelTimeOutputResolution::HybridHourlyThreeHourly(cutoff) => {
                if hour <= cutoff {
                    hour
                } else {
                    cutoff + (hour - cutoff) / 3
                }
            },
            ModelTimeOutputResolution::ThreeHourly => hour / 3,
            ModelTimeOutputResolution::HybridThreeHourlySixHourly(cutoff) => {
                if hour <= cutoff {
                    hour / 3
                } else {
                    cutoff / 3 + (hour - cutoff) / 6
                }
            },
        }
    }

    /// Computing the hour of step `index` stays within `usize`.
    pub open spec fn hour_fits(self, index: int) -> bool {
        &&& self.spec_hour_for_index(index) <= usize::MAX
        &&& (self is HybridThreeHourlySixHourly ==> index * 3 <= usize::MAX)
    }

    pub fn hour_for_index(&self, index: usize) -> (hour: usize)
        requires
            self.hour_fits(index as int),
        ensures
            hour == self.spec_hour_for_index(index as int),
    {
        match self {
            ModelTimeOutputResolution::Hourly => index,
            ModelTimeOutputResolution::HybridHourlyThreeHourly(cutoff) => {
                if index <= *cutoff {
                    index
                } else {
                    *cutoff + (index - *cutoff) * 3
                }
            },
            ModelTimeOutputResolution::ThreeHourly => index * 3,
            ModelTimeOutputResolution::HybridThreeHourlySixHourly(cutoff) => {
                if index * 3 <= *cutoff {
                    index * 3
                } else {
                    *cutoff + ((index * 3 - *cutoff) / 3) * 6
                }
            },
        }
    }

    pub fn index_for_hour(&self, hour: usize) -> (index: usize)
        ensures
            index == self.spec_index_for_hour(hour as int),
    {
        match self {
            ModelTimeOutputResolution::Hourly => hour,
            ModelTimeOutputResolution::HybridHourlyThreeHourly(cutoff) => {
                if hour <= *cutoff {
                    hour
                } else {
                    *cutoff + (hour - *cutoff) / 3
                }
            },
            ModelTimeOutputResolution::ThreeHourly => hour / 3,
            ModelTimeOutputResolution::HybridThreeHourlySixHourly(cutoff) => {
                if hour <= *cutoff {
                    hour / 3
                } else {
                    *cutoff / 3 + (hour - *cutoff) / 6
                }
            },
        }
    }

    /// The step of every hour from `start_hour` to `end_hour` inclusive.
    pub fn indexes_for_hour_range(&self, start_hour: usize, end_hour: usize) -> (indexes: Vec<usize>)
        ensures
            indexes.len() == if start_hour <= end_hour {
                end_hour - start_hour + 1
            } else {
                0
            },
            forall|k: int|
                0 <= k < indexes.len() ==> #[trigger] indexes@[k] == self.spec_index_for_hour(
                    start_hour + k,
                ),
    {
        let mut indexes: Vec<usize> = Vec::new();
        if start_hour > end_hour {
            return indexes;
        }
        let mut h = start_hour;
        loop
            invariant_except_break
                indexes.len() == h - start_hour,
            invariant
                start_hour <= h <= end_hour,
                indexes.len() <= h - start_hour + 1,
                forall|k: int|
                    0 <= k < indexes.len() ==> #[trigger] indexes@[k] == self.spec_index_for_hour(
                        start_hour + k,
                    ),
            ensures
                indexes.len() == end_hour - start_hour + 1,
                forall|k: int|
                    0 <= k < indexes.len() ==> #[trigger] indexes@[k] == self.spec_index_for_hour(
                        start_hour + k,
                    ),
            decreases end_hour - h,
        {
            indexes.push(self.index_for_hour(h));
            if h == end_hour {
                break ;
            }
            h += 1;
        }
        indexes
    }

    /// The hour of every step from `start_index` to `end_index` inclusive.
    pub fn hours_for_index_range(&self, start_index: usize, end_index: usize) -> (hours: Vec<usize>)
        requires
            start_index <= end_index ==> self.hour_fits(end_index as int),
        ensures
            hours.len() == if start_index <= end_index {
                end_index - start_index + 1
            } else {
                0
            },
            forall|k: int|
                0 <= k < hours.len() ==> #[trigger] hours@[k] == self.spec_hour_for_index(
                    start_index + k,
                ),
    {
        let mut hours: Vec<usize> = Vec::new();
        if start_index > end_index {
            return hours;
        }
        let mut i = start_index;
        loop
            invariant_except_break
                hours.len() == i - start_index,
            invariant
                start_index <= i <= end_index,
                self.hour_fits(end_index as int),
                hours.len() <= i - start_index + 1,
                forall|k: int|
                    0 <= k < hours.len() ==> #[trigger] hours@[k] == self.spec_hour_for_index(
                        start_index + k,
                    ),
            ensures
                hours.len() == end_index - start_index + 1,
                forall|k: int|
                    0 <= k < hours.len() ==> #[trigger] hours@[k] == self.spec_hour_for_index(
                        start_index + k,
                    ),
            decreases end_index - i,
        {
            proof {
                self.lemma_hour_monotone(i as int, end_index as int);
            }
            hours.push(self.hour_for_index(i));
            if i == end_index {
                break ;
            }
            i += 1;
        }
        hours
    }

    /// The hours of the output steps that cover `start_hour` to `end_hour`:
    /// from the step at or before `start_hour` to the step at or before
    /// `end_hour`.
    pub fn hours_for_hour_range(&self, start_hour: usize, end_hour: usize) -> (hours: Vec<usize>)
        ensures
            ({
                let s = self.spec_index_for_hour(start_hour as int);
                let e = self.spec_index_for_hour(end_hour as int);
                &&& hours.len() == if s <= e {
                    e - s + 1
                } else {
                    0
                }
                &&& forall|k: int|
                    0 <= k < hours.len() ==> #[trigger] hours@[k] == self.spec_hour_for_index(s + k)
            }),
    {
        let start_index = self.index_for_hour(start_hour);
        let end_index = self.index_for_hour(end_hour);
        proof {
            self.lemma_step_at_or_before(end_hour as int);
        }
        self.hours_for_index_range(start_index, end_index)
    }

    /// Later steps never have earlier hours.
    pub proof fn lemma_hour_monotone(self, i: int, j: int)
        requires
            0 <= i <= j,
        ensures
            self.spec_hour_for_index(i) <= self.spec_hour_for_index(j),
            self.hour_fits(j) ==> self.hour_fits(i),
    {
        match self {
            ModelTimeOutputResolution::HybridThreeHourlySixHourly(cutoff) => {
                if i * 3 > cutoff {
                    assert((i * 3 - cutoff) / 3 <= (j * 3 - cutoff) / 3) by (nonlinear_arith)
                        requires
                            i <= j,
                            i * 3 > cutoff,
                    ;
                    assert(((i * 3 - cutoff) / 3) * 6 <= ((j * 3 - cutoff) / 3) * 6) by (
                    nonlinear_arith)
                        requires
                            (i * 3 - cutoff) / 3 <= (j * 3 - cutoff) / 3,
                    ;
                } else if j * 3 > cutoff {
                    assert(((j * 3 - cutoff) / 3) * 6 >= 0) by (nonlinear_arith)
                        requires
                            j * 3 > cutoff,
                    ;
                }
            },
            _ => {},
        }
    }

    /// The step found for an hour never starts after that hour, and when
    /// `hour` is `usize` sized so is everything about its step.
    pub proof fn lemma_step_at_or_before(self, hour: int)
        requires
            0 <= hour <= usize::MAX,
        ensures
            self.spec_hour_for_index(self.spec_index_for_hour(hour)) <= hour,
            0 <= self.spec_index_for_hour(hour) <= hour,
            self.hour_fits(self.spec_index_for_hour(hour)),
    {
        match self {
            ModelTimeOutputResolution::HybridThreeHourlySixHourly(cutoff) => {
                let idx = self.spec_index_for_hour(hour);
                if hour <= cutoff {
                    assert(idx * 3 <= hour) by (nonlinear_arith)
                        requires
                            idx == hour / 3,
                            hour >= 0,
                    ;
                } else {
                    let k = (hour - cutoff) / 6;
                    assert(idx * 3 <= hour) by (nonlinear_arith)
                        requires
                            idx == cutoff / 3 + k,
                            k == (hour - cutoff) / 6,
                            hour > cutoff,
                            cutoff >= 0,
                    ;
                    if idx * 3 > cutoff {
                        assert(cutoff + ((idx * 3 - cutoff) / 3) * 6 <= hour) by (nonlinear_arith)
                            requires
                                idx == cutoff / 3 + k,
                                k == (hour - cutoff) / 6,
                                hour > cutoff,
                                cutoff >= 0,
                                idx * 3 > cutoff,
                        ;
                    }
                }
            },
            ModelTimeOutputResolution::HybridHourlyThreeHourly(cutoff) => {
                if hour > cutoff {
                    assert(cutoff + ((hour - cutoff) / 3) * 3 <= hour) by (nonlinear_arith)
                        requires
                            hour > cutoff,
                    ;
                }
            },
            ModelTimeOutputResolution::ThreeHourly => {
                assert((hour / 3) * 3 <= hour) by (nonlinear_arith)
                    requires
                        hour >= 0,
                ;
            },
            _ => {},
        }
    }

    /// Reading back the step of the hour written at a step gives that step.
    /// For the three/six hourly schedule this needs a cutoff on the three
    /// hourly grid: with cutoff 241, step 81 is written at hour 241, which
    /// reads back as step 80.
    pub proof fn lemma_index_of_hour_of_index(self, index: int)
        requires
            index >= 0,
            self matches ModelTimeOutputResolution::HybridThreeHourlySixHourly(cutoff) ==> cutoff
                % 3 == 0,
        ensures
            self.spec_index_for_hour(self.spec_hour_for_index(index)) == index,
    {
        match self {
            ModelTimeOutputResolution::HybridThreeHourlySixHourly(cutoff) => {
                if index * 3 > cutoff {
                    let k = (index * 3 - cutoff) / 3;
                    assert(k == index - cutoff / 3 && k >= 1);
                    assert((k * 6) / 6 == k) by (nonlinear_arith);
                }
            },
            ModelTimeOutputResolution::HybridHourlyThreeHourly(cutoff) => {
                if index > cutoff {
                    assert(((index - cutoff) * 3) / 3 == index - cutoff) by (nonlinear_arith);
                }
            },
            _ => {},
        }
    }
}


/// A NOAA model published as one GRIB file per output hour, for users to
/// implement.
pub trait NOAAModel {
    /// The output schedule `time_resolution` returns.
    spec fn spec_time_resolution(&self) -> ModelTimeOutputResolution;

    /// `run` is the most recent run expected to be fully published at
    /// `date`.
    spec fn spec_closest_run(&self, date: UtcDateTime, run: UtcDateTime) -> bool;

    /// The URL of the file for `output_hour` of the run starting at `run`.
    spec fn spec_url(&self, source: ModelDataSource, output_hour: usize, run: UtcDateTime) -> Seq<char>;

    fn id(&self) -> &'static str;

    fn name(&self) -> &'static str;

    fn description(&self) -> &'static str;

    fn time_resolution(&self) -> (r: ModelTimeOutputResolution)
        ensures
            r == self.spec_time_resolution(),
    ;

    /// The most recent model run expected to be fully published at `date`.
    fn closest_model_run_date(&self, date: &UtcDateTime) -> (run: UtcDateTime)
        requires
            query_date_ok(*date),
        ensures
            run.wf(),
            self.spec_closest_run(*date, run),
    ;

    fn url_root(&self, source: &ModelDataSource) -> &'static str;

    /// The forecast hour written at output step `index`.
    fn hour_for_index(&self, index: usize) -> (hour: usize)
        requires
            self.spec_time_resolution().hour_fits(index as int),
        ensures
            hour == self.spec_time_resolution().spec_hour_for_index(index as int),
    {
        self.time_resolution().hour_for_index(index)
    }

    /// The output step holding forecast hour `hour`, or the one before it.
    fn index_for_hour(&self, hour: usize) -> (index: usize)
        ensures
            index == self.spec_time_resolution().spec_index_for_hour(hour as int),
    {
        self.time_resolution().index_for_hour(hour)
    }

    /// The URL of the file for `output_hour` of the run published by
    /// `query_date`, or, when it is None, by now (by the Unix epoch where
    /// the clock reads before it).
    fn create_url(
        &self,
        source: &ModelDataSource,
        output_hour: usize,
        query_date: Option<UtcDateTime>,
    ) -> (url: String)
        requires
            query_date matches Some(d) ==> query_date_ok(d),
        ensures
            exists|run: UtcDateTime|
                #![trigger self.spec_url(*source, output_hour, run)]
                url@ == self.spec_url(*source, output_hour, run) && match query_date {
                    Some(d) => self.spec_closest_run(d, run),
                    None => exists|now: UtcDateTime|
                        #![trigger self.spec_closest_run(now, run)]
                        now.wf() && now.unix_seconds() >= 0 && self.spec_closest_run(now, run),
                },
    ;

    /// The URL of the index of that file.
    fn create_idx_url(
        &self,
        source: &ModelDataSource,
        output_hour: usize,
        query_date: Option<UtcDateTime>,
    ) -> (url: String)
        requires
            query_date matches Some(d) ==> query_date_ok(d),
        default_ensures
            exists|run: UtcDateTime|
                #![trigger self.spec_url(*source, output_hour, run)]
                url@ == self.spec_url(*source, output_hour, run) + ".idx"@ && match query_date {
                    Some(d) => self.spec_closest_run(d, run),
                    None => exists|now: UtcDateTime|
                        #![trigger self.spec_closest_run(now, run)]
                        now.wf() && now.unix_seconds() >= 0 && self.spec_closest_run(now, run),
                },
    {
        let mut url = self.create_url(source, output_hour, query_date);
        push_str(&mut url, ".idx");
        url
    }
}

} // verus!

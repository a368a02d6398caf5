//! The ECMWF open-data fields used for wave forecasts, and how a decoded
//! GRIB message is identified as one of them.

use vstd::prelude::*;

use crate::text::{decimal, digit_char, push_decimal, push_str, push_zero_padded, zero_padded};
use crate::tools::grid_sampler::SampleMethod;
use crate::units::Unit;

verus! {

/// Lower and upper period (seconds) of the six ECMWF period-band height fields.
pub const ECMWF_WAVE_PERIOD_BANDS: [(u8, u8); 6] = [
    (10, 12),
    (12, 14),
    (14, 17),
    (17, 21),
    (21, 25),
    (25, 30),
];

/// A field used from ECMWF open data: the wave fields (streams `wave` and
/// `waef`) and 10 m wind (streams `oper` and `enfo`).
#[derive(Clone, Copy, Debug, PartialEq, Eq, Hash)]
pub enum ECMWFField {
    /// `swh`: significant height of combined wind waves and swell (m).
    SignificantHeight,
    /// `mwd`: mean direction of the whole sea state (degrees true, coming from).
    MeanDirection,
    /// `mwp`: mean period Tm-1,0, the energy period (s).
    EnergyPeriod,
    /// `mp2`: mean zero-crossing period Tm02 (s). IFS only.
    ZeroCrossingPeriod,
    /// `pp1d`: peak period (s). IFS only.
    PeakPeriod,
    /// `h1012` ... `h2530`: significant height of the energy with periods in
    /// `[min_period, max_period)` seconds (m).
    PeriodBandHeight { min_period: u8, max_period: u8 },
    /// `wmb`: model bathymetry (m, capped at 999).
    ModelBathymetry,
    /// `cdww`: drag coefficient with waves (dimensionless).
    DragCoefficient,
    /// `swhg2` ... `swhg8`: probability that Hs is at least `threshold` m (%).
    HeightExceedance { threshold: u8 },
    /// `mwpg8` ... `mwpg15`: probability that Tm-1,0 is at least `threshold` s (%). AIFS only.
    PeriodExceedance { threshold: u8 },
    /// `10u`: eastward 10 m wind (m/s), from `oper`/`enfo`.
    WindU,
    /// `10v`: northward 10 m wind (m/s), from `oper`/`enfo`.
    WindV,
}

impl ECMWFField {
    /// All six period-band height fields, shortest periods first.
    pub fn period_bands() -> (bands: Vec<ECMWFField>)
        ensures
            bands.len() == 6,
            forall|k: int|
                0 <= k < 6 ==> #[trigger] bands@[k] == (ECMWFField::PeriodBandHeight {
                    min_period: ECMWF_WAVE_PERIOD_BANDS@[k].0,
                    max_period: ECMWF_WAVE_PERIOD_BANDS@[k].1,
                }),
    {
        let mut bands: Vec<ECMWFField> = Vec::new();
        let mut i: usize = 0;
        while i < 6
            invariant
                i <= 6,
                bands.len() == i,
                forall|k: int|
                    0 <= k < i ==> #[trigger] bands@[k] == (ECMWFField::PeriodBandHeight {
                        min_period: ECMWF_WAVE_PERIOD_BANDS@[k].0,
                        max_period: ECMWF_WAVE_PERIOD_BANDS@[k].1,
                    }),
            decreases 6 - i,
        {
            let (min_period, max_period) = ECMWF_WAVE_PERIOD_BANDS[i];
            bands.push(ECMWFField::PeriodBandHeight { min_period, max_period });
            i += 1;
        }
        bands
    }

    /// The MARS `param` short name used in the `.index` files.
    pub open spec fn spec_mars_param(self) -> Seq<char> {
        match self {
            ECMWFField::SignificantHeight => "swh"@,
            ECMWFField::MeanDirection => "mwd"@,
            ECMWFField::EnergyPeriod => "mwp"@,
            ECMWFField::ZeroCrossingPeriod => "mp2"@,
            ECMWFField::PeakPeriod => "pp1d"@,
            ECMWFField::PeriodBandHeight { min_period, max_period } => "h"@ + zero_padded(
                min_period as nat,
                2,
            ) + zero_padded(max_period as nat, 2),
            ECMWFField::ModelBathymetry => "wmb"@,
            ECMWFField::DragCoefficient => "cdww"@,
            ECMWFField::HeightExceedance { threshold } => "swhg"@ + decimal(threshold as nat),
            ECMWFField::PeriodExceedance { threshold } => "mwpg"@ + decimal(threshold as nat),
            ECMWFField::WindU => "10u"@,
            ECMWFField::WindV => "10v"@,
        }
    }

    pub fn mars_param(&self) -> (param: String)
        ensures
            param@ == self.spec_mars_param(),
    {
        let mut param = String::new();
        match self {
            ECMWFField::SignificantHeight => push_str(&mut param, "swh"),
            ECMWFField::MeanDirection => push_str(&mut param, "mwd"),
            ECMWFField::EnergyPeriod => push_str(&mut param, "mwp"),
            ECMWFField::ZeroCrossingPeriod => push_str(&mut param, "mp2"),
            ECMWFField::PeakPeriod => push_str(&mut param, "pp1d"),
            ECMWFField::PeriodBandHeight { min_period, max_period } => {
                push_str(&mut param, "h");
                push_zero_padded(&mut param, *min_period as u64, 2);
                push_zero_padded(&mut param, *max_period as u64, 2);
            },
            ECMWFField::ModelBathymetry => push_str(&mut param, "wmb"),
            ECMWFField::DragCoefficient => push_str(&mut param, "cdww"),
            ECMWFField::HeightExceedance { threshold } => {
                push_str(&mut param, "swhg");
                push_decimal(&mut param, *threshold as u64);
            },
            ECMWFField::PeriodExceedance { threshold } => {
                push_str(&mut param, "mwpg");
                push_decimal(&mut param, *threshold as u64);
            },
            ECMWFField::WindU => push_str(&mut param, "10u"),
            ECMWFField::WindV => push_str(&mut param, "10v"),
        }
        param
    }

    /// How to sample the field at a point: heights as energy, directions as
    /// angles, everything else (including wind components) linearly.
    pub open spec fn spec_sample_method(self) -> SampleMethod {
        match self {
            ECMWFField::SignificantHeight | ECMWFField::PeriodBandHeight { .. } => {
                SampleMethod::BilinearEnergy
            },
            ECMWFField::MeanDirection => SampleMethod::BilinearAngular,
            _ => SampleMethod::Bilinear,
        }
    }

    pub fn sample_method(&self) -> (method: SampleMethod)
        ensures
            method == self.spec_sample_method(),
    {
        match self {
            ECMWFField::SignificantHeight | ECMWFField::PeriodBandHeight { .. } => {
                SampleMethod::BilinearEnergy
            },
            ECMWFField::MeanDirection => SampleMethod::BilinearAngular,
            _ => SampleMethod::Bilinear,
        }
    }

    pub open spec fn spec_unit(self) -> Unit {
        match self {
            ECMWFField::SignificantHeight
            | ECMWFField::PeriodBandHeight { .. }
            | ECMWFField::ModelBathymetry => Unit::Meters,
            ECMWFField::MeanDirection => Unit::Degrees,
            ECMWFField::EnergyPeriod | ECMWFField::ZeroCrossingPeriod | ECMWFField::PeakPeriod => {
                Unit::Seconds
            },
            ECMWFField::HeightExceedance { .. } | ECMWFField::PeriodExceedance { .. } => {
                Unit::Percent
            },
            ECMWFField::DragCoefficient => Unit::Unknown,
            ECMWFField::WindU | ECMWFField::WindV => Unit::MetersPerSecond,
        }
    }

    pub fn unit(&self) -> (unit: Unit)
        ensures
            unit == self.spec_unit(),
    {
        match self {
            ECMWFField::SignificantHeight
            | ECMWFField::PeriodBandHeight { .. }
            | ECMWFField::ModelBathymetry => Unit::Meters,
            ECMWFField::MeanDirection => Unit::Degrees,
            ECMWFField::EnergyPeriod | ECMWFField::ZeroCrossingPeriod | ECMWFField::PeakPeriod => {
                Unit::Seconds
            },
            ECMWFField::HeightExceedance { .. } | ECMWFField::PeriodExceedance { .. } => {
                Unit::Percent
            },
            ECMWFField::DragCoefficient => Unit::Unknown,
            ECMWFField::WindU | ECMWFField::WindV => Unit::MetersPerSecond,
        }
    }

    /// The field a decoded message holds, from its GRIB2 (discipline,
    /// category, number), the threshold of an "above lower limit"
    /// probability product (rounded to whole units), the wave period range
    /// of a period-band product (rounded to whole seconds, `Err` when it
    /// could not be decoded), and whether the message is at 10 m above
    /// ground. The abbreviation alone is not enough: the six period bands and
    /// the height probabilities all decode as `HTSGW`.
    pub open spec fn spec_from_codes(
        code: (u8, u8, u8),
        exceedance: Option<u8>,
        period_range: Result<Option<(u8, u8)>, ()>,
        at_10m: bool,
    ) -> Option<ECMWFField> {
        if code == (10u8, 0u8, 3u8) {
            match exceedance {
                Some(threshold) => Some(ECMWFField::HeightExceedance { threshold }),
                None => match period_range {
                    Err(_) => None,
                    Ok(Some((min_period, max_period))) => Some(
                        ECMWFField::PeriodBandHeight { min_period, max_period },
                    ),
                    Ok(None) => Some(ECMWFField::SignificantHeight),
                },
            }
        } else if code == (10u8, 0u8, 14u8) {
            Some(ECMWFField::MeanDirection)
        } else if code == (10u8, 0u8, 15u8) {
            match exceedance {
                Some(threshold) => Some(ECMWFField::PeriodExceedance { threshold }),
                None => Some(ECMWFField::EnergyPeriod),
            }
        } else if code == (255u8, 131u8, 79u8) {
            match exceedance {
                Some(threshold) => Some(ECMWFField::PeriodExceedance { threshold }),
                None => None,
            }
        } else if code == (10u8, 0u8, 16u8) {
            Some(ECMWFField::DragCoefficient)
        } else if code == (10u8, 0u8, 28u8) {
            Some(ECMWFField::ZeroCrossingPeriod)
        } else if code == (10u8, 0u8, 34u8) {
            Some(ECMWFField::PeakPeriod)
        } else if code == (10u8, 4u8, 7u8) {
            Some(ECMWFField::ModelBathymetry)
        } else if code == (0u8, 2u8, 2u8) && at_10m {
            Some(ECMWFField::WindU)
        } else if code == (0u8, 2u8, 3u8) && at_10m {
            Some(ECMWFField::WindV)
        } else {
            None
        }
    }

    /// Identify a decoded message from what was read of it (see
    /// `spec_from_codes`). AIFS ENS publishes the mean period probabilities
    /// with an ECMWF local parameter rather than 10,0,15.
    pub fn from_codes(
        code: (u8, u8, u8),
        exceedance: Option<u8>,
        period_range: Result<Option<(u8, u8)>, ()>,
        at_10m: bool,
    ) -> (field: Option<ECMWFField>)
        ensures
            field == Self::spec_from_codes(code, exceedance, period_range, at_10m),
    {
        let (discipline, category, parameter) = code;
        if discipline == 10 && category == 0 && parameter == 3 {
            match exceedance {
                Some(threshold) => Some(ECMWFField::HeightExceedance { threshold }),
                None => match period_range {
                    Err(_) => None,
                    Ok(Some((min_period, max_period))) => Some(
                        ECMWFField::PeriodBandHeight { min_period, max_period },
                    ),
                    Ok(None) => Some(ECMWFField::SignificantHeight),
                },
            }
        } else if discipline == 10 && category == 0 && parameter == 14 {
            Some(ECMWFField::MeanDirection)
        } else if discipline == 10 && category == 0 && parameter == 15 {
            match exceedance {
                Some(threshold) => Some(ECMWFField::PeriodExceedance { threshold }),
                None => Some(ECMWFField::EnergyPeriod),
            }
        } else if discipline == 255 && category == 131 && parameter == 79 {
            match exceedance {
                Some(threshold) => Some(ECMWFField::PeriodExceedance { threshold }),
                None => None,
            }
        } else if discipline == 10 && category == 0 && parameter == 16 {
            Some(ECMWFField::DragCoefficient)
        } else if discipline == 10 && category == 0 && parameter == 28 {
            Some(ECMWFField::ZeroCrossingPeriod)
        } else if discipline == 10 && category == 0 && parameter == 34 {
            Some(ECMWFField::PeakPeriod)
        } else if discipline == 10 && category == 4 && parameter == 7 {
            Some(ECMWFField::ModelBathymetry)
        } else if discipline == 0 && category == 2 && parameter == 2 && at_10m {
            Some(ECMWFField::WindU)
        } else if discipline == 0 && category == 2 && parameter == 3 && at_10m {
            Some(ECMWFField::WindV)
        } else {
            None
        }
    }
}

/// Which forecast in an ensemble a message belongs to.
#[derive(Clone, Copy, Debug, PartialEq, Eq, Hash, PartialOrd, Ord)]
pub enum ForecastMember {
    /// A single deterministic forecast (IFS HRES, AIFS single) or a product
    /// derived from the whole ensemble (probabilities).
    Deterministic,
    /// The unperturbed ensemble control (AIFS ENS `cf`).
    Control,
    /// A perturbed ensemble member, numbered from 1.
    Perturbed(u8),
}

impl ForecastMember {
    /// The member given the ensemble size and perturbation number of a
    /// message. IFS HRES encodes its period bands as member 0 of an ensemble
    /// of 0, so an ensemble size of 0 means deterministic.
    pub open spec fn spec_from_ensemble_numbers(members: Option<u8>, perturbation: Option<u8>) -> ForecastMember {
        match (members, perturbation) {
            (None, _) => ForecastMember::Deterministic,
            (Some(m), _) if m == 0 => ForecastMember::Deterministic,
            (_, None) => ForecastMember::Deterministic,
            (_, Some(n)) => if n == 0 {
                ForecastMember::Control
            } else {
                ForecastMember::Perturbed(n)
            },
        }
    }

    pub fn from_ensemble_numbers(members: Option<u8>, perturbation: Option<u8>) -> (member: ForecastMember)
        ensures
            member == Self::spec_from_ensemble_numbers(members, perturbation),
    {
        match (members, perturbation) {
            (None, _) | (Some(0), _) | (_, None) => ForecastMember::Deterministic,
            (_, Some(0)) => ForecastMember::Control,
            (_, Some(n)) => ForecastMember::Perturbed(n),
        }
    }
}

/// The ECMWF short name of the GRIB2 parameter `code` (discipline,
/// category, number), for the wave and 10 m wind parameters that ECMWF open
/// data publishes: WMO code table 4.2 as the ECMWF parameter database names
/// its entries.
pub open spec fn grib2_short_name(code: (u8, u8, u8)) -> Option<Seq<char>> {
    match code {
        (10, 0, 3) => Some("swh"@),
        (10, 0, 14) => Some("mwd"@),
        (10, 0, 15) => Some("mwp"@),
        (10, 0, 16) => Some("cdww"@),
        (10, 0, 28) => Some("mp2"@),
        (10, 0, 34) => Some("pp1d"@),
        (10, 4, 7) => Some("wmb"@),
        (0, 2, 2) => Some("10u"@),
        (0, 2, 3) => Some("10v"@),
        _ => None,
    }
}

/// The unit of the GRIB2 parameter `code` in WMO code table 4.2, for those
/// of its parameters that have one: heights and depths in metres, wave
/// periods in seconds, directions in degrees, wind components in m/s.
pub open spec fn grib2_unit(code: (u8, u8, u8)) -> Option<Unit> {
    match code {
        (10, 0, 3) => Some(Unit::Meters),
        (10, 0, 14) => Some(Unit::Degrees),
        (10, 0, 15) => Some(Unit::Seconds),
        (10, 0, 28) => Some(Unit::Seconds),
        (10, 0, 34) => Some(Unit::Seconds),
        (10, 4, 7) => Some(Unit::Meters),
        (0, 2, 2) => Some(Unit::MetersPerSecond),
        (0, 2, 3) => Some(Unit::MetersPerSecond),
        _ => None,
    }
}

/// A field identified from a GRIB2 code is the parameter that code stands
/// for: its MARS param is the code's short name in the ECMWF parameter
/// database, and its unit the code's unit in the WMO table. A probability
/// product of a wave height or period is named after it, with `g` and the
/// threshold, and is a percentage.
pub proof fn lemma_identified_field_matches_code_table(
    code: (u8, u8, u8),
    exceedance: Option<u8>,
    period_range: Result<Option<(u8, u8)>, ()>,
    at_10m: bool,
)
    ensures
        ECMWFField::spec_from_codes(code, None, Ok(None), at_10m) matches Some(f) ==> {
            &&& grib2_short_name(code) == Some(f.spec_mars_param())
            &&& (grib2_unit(code) matches Some(u) ==> f.spec_unit() == u)
        },
        (code == (10u8, 0u8, 3u8) || code == (10u8, 0u8, 15u8)) ==> (ECMWFField::spec_from_codes(
            code,
            exceedance,
            period_range,
            at_10m,
        ) matches Some(f) ==> (exceedance matches Some(t) ==> {
            &&& f.spec_unit() == Unit::Percent
            &&& (grib2_short_name(code) matches Some(n) ==> f.spec_mars_param() == n + "g"@
                + decimal(t as nat))
        })),
{
    reveal_strlit("swh");
    reveal_strlit("mwp");
    reveal_strlit("g");
    reveal_strlit("swhg");
    reveal_strlit("mwpg");
    assert("swh"@ + "g"@ =~= "swhg"@);
    assert("mwp"@ + "g"@ =~= "mwpg"@);
}

/// Every field but the period bands and the probabilities is identified
/// from the GRIB2 code that the tables give for its MARS param and unit.
pub proof fn lemma_fields_have_a_code(f: ECMWFField)
    ensures
        !(f is PeriodBandHeight || f is HeightExceedance || f is PeriodExceedance) ==> exists|
            code: (u8, u8, u8),
        |
            #![trigger grib2_short_name(code)]
            ECMWFField::spec_from_codes(code, None, Ok(None), true) == Some(f) && grib2_short_name(
                code,
            ) == Some(f.spec_mars_param()),
{
    let code: (u8, u8, u8) = match f {
        ECMWFField::SignificantHeight => (10, 0, 3),
        ECMWFField::MeanDirection => (10, 0, 14),
        ECMWFField::EnergyPeriod => (10, 0, 15),
        ECMWFField::ZeroCrossingPeriod => (10, 0, 28),
        ECMWFField::PeakPeriod => (10, 0, 34),
        ECMWFField::ModelBathymetry => (10, 4, 7),
        ECMWFField::DragCoefficient => (10, 0, 16),
        ECMWFField::WindU => (0, 2, 2),
        ECMWFField::WindV => (0, 2, 3),
        _ => (0, 0, 0),
    };
    if !(f is PeriodBandHeight || f is HeightExceedance || f is PeriodExceedance) {
        assert(ECMWFField::spec_from_codes(code, None, Ok(None), true) == Some(f));
        assert(grib2_short_name(code) == Some(f.spec_mars_param()));
    }
}

/// Directions, and only directions, are sampled as angles; wave heights
/// (the significant height and the band heights, code 10,0,3 without a
/// threshold) are sampled as energy.
pub proof fn lemma_sampling_follows_quantity(
    code: (u8, u8, u8),
    period_range: Result<Option<(u8, u8)>, ()>,
    at_10m: bool,
    f: ECMWFField,
)
    ensures
        (f.spec_sample_method() == SampleMethod::BilinearAngular) == (f.spec_unit() == Unit::Degrees),
        ECMWFField::spec_from_codes(code, None, period_range, at_10m) == Some(f) ==> ((
        f.spec_sample_method() == SampleMethod::BilinearEnergy) == (code == (10u8, 0u8, 3u8))),
{
}

/// The period bands cover 10 to 30 seconds without gaps or overlaps, each
/// band starting where the one before it ends.
pub proof fn lemma_period_bands_tile(k: int)
    ensures
        ECMWF_WAVE_PERIOD_BANDS@.len() == 6,
        ECMWF_WAVE_PERIOD_BANDS@[0].0 == 10,
        ECMWF_WAVE_PERIOD_BANDS@[5].1 == 30,
        0 <= k < 6 ==> ECMWF_WAVE_PERIOD_BANDS@[k].0 < ECMWF_WAVE_PERIOD_BANDS@[k].1,
        0 <= k < 5 ==> ECMWF_WAVE_PERIOD_BANDS@[k].1 == ECMWF_WAVE_PERIOD_BANDS@[k + 1].0,
{
}

/// The ECMWF short names of the six period-band heights, shortest periods
/// first.
pub open spec fn band_short_names() -> Seq<Seq<char>> {
    seq!["h1012"@, "h1214"@, "h1417"@, "h1721"@, "h2125"@, "h2530"@]
}

proof fn lemma_two_digits(n: nat)
    requires
        10 <= n < 100,
    ensures
        zero_padded(n, 2) == seq![digit_char(n / 10), digit_char(n % 10)],
{
    reveal_with_fuel(decimal, 2);
    assert(decimal(n) =~= seq![digit_char(n / 10), digit_char(n % 10)]);
}

/// Each period band is named as the ECMWF parameter database names its
/// height: `h` and its two periods.
pub proof fn lemma_band_names(k: int)
    requires
        0 <= k < 6,
    ensures
        (ECMWFField::PeriodBandHeight {
            min_period: ECMWF_WAVE_PERIOD_BANDS@[k].0,
            max_period: ECMWF_WAVE_PERIOD_BANDS@[k].1,
        }).spec_mars_param() == band_short_names()[k],
{
    let (lo, hi) = ECMWF_WAVE_PERIOD_BANDS@[k];
    lemma_two_digits(lo as nat);
    lemma_two_digits(hi as nat);
    reveal_strlit("h");
    reveal_strlit("h1012");
    reveal_strlit("h1214");
    reveal_strlit("h1417");
    reveal_strlit("h1721");
    reveal_strlit("h2125");
    reveal_strlit("h2530");
    assert((ECMWFField::PeriodBandHeight { min_period: lo, max_period: hi }).spec_mars_param()
        =~= band_short_names()[k]);
}

} // verus!

use surfrs::model::byte_range::{coalesce_ranges, ByteRange};
use surfrs::model::gridded_model::{ModelTimeOutputResolution as GriddedResolution, NOAADataSource};
use surfrs::model::noaa_model::{ModelDataSource, ModelTimeOutputResolution};

fn range(offset: u64, length: u64) -> ByteRange {
    ByteRange { offset, length }
}

#[test]
fn test_http_range_header() {
    assert_eq!(range(0, 100).http_range_header(), "bytes=0-99");
    assert_eq!(
        range(806097, 786346).http_range_header(),
        "bytes=806097-1592442"
    );
}

#[test]
fn test_coalesce_adjacent_and_gapped() {
    let merged = coalesce_ranges(vec![range(200, 50), range(0, 100), range(100, 50)], 0);
    assert_eq!(merged, vec![range(0, 150), range(200, 50)]);

    let merged = coalesce_ranges(vec![range(200, 50), range(0, 100), range(100, 50)], 50);
    assert_eq!(merged, vec![range(0, 250)]);
}

#[test]
fn test_coalesce_overlapping() {
    let merged = coalesce_ranges(vec![range(0, 100), range(50, 20), range(90, 30)], 0);
    assert_eq!(merged, vec![range(0, 120)]);
}

#[test]
fn gridded_model_test_model_source_parse() {
    assert_eq!(
        NOAADataSource::try_from("NOMADS").unwrap(),
        NOAADataSource::NOMADS
    );
    assert_eq!(
        NOAADataSource::try_from("noaa").unwrap(),
        NOAADataSource::NOMADS
    );
    assert_eq!(
        NOAADataSource::try_from("NODDAWS").unwrap(),
        NOAADataSource::NODDAWS
    );
    assert_eq!(
        NOAADataSource::try_from("noddgcp").unwrap(),
        NOAADataSource::NODDGCP
    );
    assert_eq!(
        NOAADataSource::try_from("noddgcs").unwrap(),
        NOAADataSource::NODDGCP
    );
    assert!(NOAADataSource::try_from("unknown").is_err());
}

#[test]
fn gridded_model_test_model_output_time_index_to_hour() {
    assert_eq!(GriddedResolution::Hourly.hour_for_index(140), 140);
    assert_eq!(GriddedResolution::ThreeHourly.hour_for_index(20), 60);
    assert_eq!(GriddedResolution::HybridHourlyThreeHourly(120).hour_for_index(90), 90);
    assert_eq!(GriddedResolution::HybridHourlyThreeHourly(120).hour_for_index(130), 150);
    assert_eq!(GriddedResolution::HybridThreeHourlySixHourly(240).hour_for_index(18), 54);
    assert_eq!(GriddedResolution::HybridThreeHourlySixHourly(240).hour_for_index(104), 384);
    assert_eq!(GriddedResolution::SixHourly.hour_for_index(60), 360);
}

#[test]
fn gridded_model_test_model_output_time_hour_to_index() {
    assert_eq!(GriddedResolution::Hourly.index_for_hour(140), 140);
    assert_eq!(GriddedResolution::ThreeHourly.index_for_hour(63), 21);
    assert_eq!(GriddedResolution::HybridHourlyThreeHourly(120).index_for_hour(90), 90);
    assert_eq!(GriddedResolution::HybridHourlyThreeHourly(120).index_for_hour(132), 124);
    assert_eq!(GriddedResolution::HybridThreeHourlySixHourly(240).index_for_hour(240), 80);
    assert_eq!(GriddedResolution::HybridThreeHourlySixHourly(240).index_for_hour(384), 104);
    assert_eq!(GriddedResolution::SixHourly.index_for_hour(360), 60);
}

#[test]
fn gridded_model_test_model_output_time_hours_for_hour_range() {
    let hourly_hours = [117, 118, 119, 120, 121, 122, 123, 124, 125, 126];
    let hybrid_hourly = [117, 118, 119, 120, 123, 126];
    let three_hourly_hours = [117, 120, 123, 126];
    let hybrid_three_hourly = [234, 237, 240, 246, 252, 258];

    assert_eq!(GriddedResolution::Hourly.hours_for_hour_range(117, 126), hourly_hours);
    assert_eq!(GriddedResolution::ThreeHourly.hours_for_hour_range(117, 126), three_hourly_hours);
    assert_eq!(
        GriddedResolution::HybridHourlyThreeHourly(120).hours_for_hour_range(117, 126),
        hybrid_hourly
    );
    assert_eq!(
        GriddedResolution::HybridThreeHourlySixHourly(240).hours_for_hour_range(234, 258),
        hybrid_three_hourly
    );
}

#[test]
fn noaa_model_test_model_source_parse() {
    assert_eq!(ModelDataSource::try_from("NOMADS").unwrap(), ModelDataSource::NOMADS);
    assert_eq!(ModelDataSource::try_from("noaa").unwrap(), ModelDataSource::NOMADS);
    assert_eq!(ModelDataSource::try_from("NODDAWS").unwrap(), ModelDataSource::NODDAWS);
    assert_eq!(ModelDataSource::try_from("noddgcp").unwrap(), ModelDataSource::NODDGCP);
    assert_eq!(ModelDataSource::try_from("noddgcs").unwrap(), ModelDataSource::NODDGCP);
    assert!(ModelDataSource::try_from("unknown").is_err());
}

#[test]
fn noaa_model_test_model_output_time_index_to_hour() {
    assert_eq!(ModelTimeOutputResolution::Hourly.hour_for_index(140), 140);
    assert_eq!(ModelTimeOutputResolution::ThreeHourly.hour_for_index(20), 60);
    assert_eq!(ModelTimeOutputResolution::HybridHourlyThreeHourly(120).hour_for_index(90), 90);
    assert_eq!(ModelTimeOutputResolution::HybridHourlyThreeHourly(120).hour_for_index(130), 150);
    assert_eq!(ModelTimeOutputResolution::HybridThreeHourlySixHourly(240).hour_for_index(18), 54);
    assert_eq!(ModelTimeOutputResolution::HybridThreeHourlySixHourly(240).hour_for_index(104), 384);
}

#[test]
fn noaa_model_test_model_output_time_hour_to_index() {
    assert_eq!(ModelTimeOutputResolution::Hourly.index_for_hour(140), 140);
    assert_eq!(ModelTimeOutputResolution::ThreeHourly.index_for_hour(63), 21);
    assert_eq!(ModelTimeOutputResolution::HybridHourlyThreeHourly(120).index_for_hour(90), 90);
    assert_eq!(ModelTimeOutputResolution::HybridHourlyThreeHourly(120).index_for_hour(132), 124);
    assert_eq!(ModelTimeOutputResolution::HybridThreeHourlySixHourly(240).index_for_hour(240), 80);
    assert_eq!(ModelTimeOutputResolution::HybridThreeHourlySixHourly(240).index_for_hour(384), 104);
}

#[test]
fn noaa_model_test_model_output_time_hours_for_hour_range() {
    let hourly_hours = [117, 118, 119, 120, 121, 122, 123, 124, 125, 126];
    let hybrid_hourly = [117, 118, 119, 120, 123, 126];
    let three_hourly_hours = [117, 120, 123, 126];
    let hybrid_three_hourly = [234, 237, 240, 246, 252, 258];

    assert_eq!(ModelTimeOutputResolution::Hourly.hours_for_hour_range(117, 126), hourly_hours);
    assert_eq!(ModelTimeOutputResolution::ThreeHourly.hours_for_hour_range(117, 126), three_hourly_hours);
    assert_eq!(ModelTimeOutputResolution::HybridHourlyThreeHourly(120).hours_for_hour_range(117, 126), hybrid_hourly);
    assert_eq!(ModelTimeOutputResolution::HybridThreeHourlySixHourly(240).hours_for_hour_range(234, 258), hybrid_three_hourly);
}

#[test]
fn coalesce_ranges_twice_and_in_any_order() {
    let r = |offset: u64, length: u64| ByteRange { offset, length };
    let ranges = vec![r(300, 10), r(0, 100), r(100, 5), r(100, 50), r(120, 10), r(500, 1)];
    let once = coalesce_ranges(ranges.clone(), 20);
    assert_eq!(once, vec![r(0, 150), r(300, 10), r(500, 1)]);
    // a second pass changes nothing
    assert_eq!(coalesce_ranges(once.clone(), 20), once);
    // the order of the input does not matter, equal offsets included
    let mut reversed = ranges.clone();
    reversed.reverse();
    assert_eq!(coalesce_ranges(reversed, 20), once);
    let shuffled = vec![r(100, 50), r(500, 1), r(120, 10), r(0, 100), r(300, 10), r(100, 5)];
    assert_eq!(coalesce_ranges(shuffled, 20), once);
}

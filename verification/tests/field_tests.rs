use surfrs::data::ecmwf_field::ECMWFField;
use surfrs::tools::grid_sampler::SampleMethod;
use surfrs::tools::nearest_neighbors;

#[test]
fn test_mars_params() {
    let params: Vec<String> = ECMWFField::period_bands()
        .iter()
        .map(|f| f.mars_param())
        .collect();
    assert_eq!(
        params,
        ["h1012", "h1214", "h1417", "h1721", "h2125", "h2530"]
    );
    assert_eq!(
        ECMWFField::HeightExceedance { threshold: 2 }.mars_param(),
        "swhg2"
    );
    assert_eq!(
        ECMWFField::PeriodExceedance { threshold: 10 }.mars_param(),
        "mwpg10"
    );
    assert_eq!(ECMWFField::PeakPeriod.mars_param(), "pp1d");
}

#[test]
fn test_sample_methods() {
    assert_eq!(
        ECMWFField::SignificantHeight.sample_method(),
        SampleMethod::BilinearEnergy
    );
    assert_eq!(
        ECMWFField::period_bands()[2].sample_method(),
        SampleMethod::BilinearEnergy
    );
    assert_eq!(
        ECMWFField::MeanDirection.sample_method(),
        SampleMethod::BilinearAngular
    );
    assert_eq!(
        ECMWFField::EnergyPeriod.sample_method(),
        SampleMethod::Bilinear
    );
}

#[test]
fn test_nearest_neighbors() {
    let i = 0;
    let neighbors = nearest_neighbors(4, 4, i);
    assert_eq!(neighbors[0], 0);
    assert_eq!(neighbors[1], 0);
    assert_eq!(neighbors[2], 1);
    assert_eq!(neighbors[3], 0);
    assert_eq!(neighbors[4], 0);
    assert_eq!(neighbors[5], 1);
    assert_eq!(neighbors[6], 4);
    assert_eq!(neighbors[7], 4);
    assert_eq!(neighbors[8], 5);

    let i = 6;
    let neighbors = nearest_neighbors(4, 4, i);
    assert_eq!(neighbors[0], 1);
    assert_eq!(neighbors[1], 2);
    assert_eq!(neighbors[2], 3);
    assert_eq!(neighbors[3], 5);
    assert_eq!(neighbors[4], 6);
    assert_eq!(neighbors[5], 7);
    assert_eq!(neighbors[6], 9);
    assert_eq!(neighbors[7], 10);
    assert_eq!(neighbors[8], 11);

    let i = 15;
    let neighbors = nearest_neighbors(4, 4, i);
    assert_eq!(neighbors[0], 10);
    assert_eq!(neighbors[1], 11);
    assert_eq!(neighbors[2], 12);
    assert_eq!(neighbors[3], 14);
    assert_eq!(neighbors[4], 15);
    assert_eq!(neighbors[5], 15);
    assert_eq!(neighbors[6], 14);
    assert_eq!(neighbors[7], 15);
    assert_eq!(neighbors[8], 15);
}

#[test]
fn nearest_neighbors_stay_on_the_grid() {
    // first cell of the last row: the cells below fall back to the row
    let neighbors = nearest_neighbors(4, 4, 12);
    assert_eq!(neighbors, [8, 8, 9, 11, 12, 13, 12, 12, 13]);
    for width in 1..5usize {
        for height in 1..5usize {
            for index in 0..width * height {
                let neighbors = nearest_neighbors(width, height, index);
                assert!(neighbors.iter().all(|&n| n < width * height));
                assert_eq!(neighbors[4], index);
            }
        }
    }
}

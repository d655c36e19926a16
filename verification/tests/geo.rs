use geochat::geo::{
    clamp_lat, clamp_lon, distance_m, in_range_coords, within_window, RANGE_LATLON_MICRO,
};

#[test]
fn distance_zero_at_same_point() {
    assert_eq!(distance_m(0, 0, 0, 0), 0);
    assert_eq!(distance_m(45_000_000, 9_000_000, 45_000_000, 9_000_000), 0);
    assert_eq!(distance_m(-33_450_000, -70_660_000, -33_450_000, -70_660_000), 0);
}

#[test]
fn distance_symmetric_concrete() {
    let pairs = [
        (0i64, 0i64, 52_500_000i64, 13_400_000i64),
        (45_000_000, 0, 45_000_000, 50_000),
        (-10_000_000, 170_000_000, 80_000_000, -60_000_000),
        (0, 0, 95_000, 0),
    ];
    for (lat1, lon1, lat2, lon2) in pairs {
        assert_eq!(
            distance_m(lat1, lon1, lat2, lon2),
            distance_m(lat2, lon2, lat1, lon1)
        );
    }
}

#[test]
fn distance_known_values() {
    // 0.05 degrees of longitude on the equator: about 5.56 km.
    assert_eq!(distance_m(0, 0, 0, 50_000), 5_560);
    // 0.09 degrees of latitude: just over the 10 km radius.
    assert_eq!(distance_m(0, 0, 90_000, 0), 10_010);
    // 0.095 degrees of latitude: clearly over the radius.
    assert_eq!(distance_m(0, 0, 95_000, 0), 10_566);
    // 0.089 degrees of latitude: just under the radius.
    assert_eq!(distance_m(0, 0, 89_000, 0), 9_899);
    // A city-scale pair at mid latitude.
    assert_eq!(
        distance_m(52_500_000, 13_400_000, 52_510_000, 13_410_000),
        1_302
    );
    // One degree of longitude on the equator: about 111 km.
    assert_eq!(distance_m(0, 0, 0, 1_000_000), 111_208);
}

#[test]
fn identical_points_always_in_range() {
    assert!(in_range_coords(0, 0, 0, 0));
    assert!(in_range_coords(48_850_000, 2_350_000, 48_850_000, 2_350_000));
    assert!(in_range_coords(-90_000_000, 0, -90_000_000, 0));
}

#[test]
fn meridian_radius_boundary() {
    // The computed distance crosses the 10 km radius between 0.089906
    // and 0.089907 degrees of latitude.
    assert_eq!(distance_m(0, 0, 89_906, 0), 9_999);
    assert_eq!(distance_m(0, 0, 89_907, 0), 10_000);
    assert_eq!(distance_m(0, 0, 89_908, 0), 10_000);
    assert!(in_range_coords(0, 0, 89_906, 0));
    assert!(!in_range_coords(0, 0, 89_907, 0));
    assert!(!in_range_coords(0, 0, 89_908, 0));
}

#[test]
fn meridian_separation_beyond_radius_not_in_range() {
    // Same meridian, more than 10 km apart: never in range.
    // Inside the 0.1 degree window the distance check rejects...
    assert!(!in_range_coords(0, 0, 90_000, 0));
    assert!(!in_range_coords(0, 0, 95_000, 0));
    // ... and past the window the pre-filter rejects.
    assert!(!in_range_coords(0, 0, 100_000, 0));
    assert!(!in_range_coords(0, 0, 1_000_000, 0));
    // Just under the radius on the same meridian: in range.
    assert!(in_range_coords(0, 0, 89_000, 0));
}

#[test]
fn window_and_radius_examples() {
    // (0, 0) and (0, 0.05): mutually in range.
    assert!(in_range_coords(0, 0, 0, 50_000));
    assert!(in_range_coords(0, 50_000, 0, 0));
    // (0, 0) and (0, 1.0): not in range.
    assert!(!in_range_coords(0, 0, 0, 1_000_000));
    assert!(!in_range_coords(0, 1_000_000, 0, 0));
}

#[test]
fn window_prefilter() {
    assert!(within_window(0, 0, 99_999, -99_999, RANGE_LATLON_MICRO));
    assert!(!within_window(0, 0, 100_000, 0, RANGE_LATLON_MICRO));
    assert!(!within_window(0, 0, 0, 100_000, RANGE_LATLON_MICRO));
    assert!(!within_window(0, 0, 1, 1, 1));
    assert!(within_window(7, -7, 7, -7, 1));
}

#[test]
fn clamping_onto_globe() {
    assert_eq!(clamp_lat(91_000_000), 90_000_000);
    assert_eq!(clamp_lat(-91_000_000), -90_000_000);
    assert_eq!(clamp_lat(12_345), 12_345);
    assert_eq!(clamp_lon(180_000_001), 180_000_000);
    assert_eq!(clamp_lon(-500_000_000), -180_000_000);
    assert_eq!(clamp_lon(-179_999_999), -179_999_999);
}

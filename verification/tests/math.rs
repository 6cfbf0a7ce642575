use internet_roadtrip_pathfinder::math::angle::Angle;
use internet_roadtrip_pathfinder::math::approx_distance_sqr;
use internet_roadtrip_pathfinder::math::calculate_heading_diff;
use internet_roadtrip_pathfinder::math::calculate_heading_gap;
use internet_roadtrip_pathfinder::math::distance_if_within_radius;
use internet_roadtrip_pathfinder::math::heading_from_single;
use internet_roadtrip_pathfinder::math::is_at_least_within_radius;
use internet_roadtrip_pathfinder::math::is_at_least_within_radius_sqr;
use internet_roadtrip_pathfinder::math::normalize_heading;
use internet_roadtrip_pathfinder::math::turn_heading;
use internet_roadtrip_pathfinder::math::underestimate_distance_sqr;
use internet_roadtrip_pathfinder::model::Location;

const EARTH_RADIUS: f64 = 6_378_137.;
const LAT_M_PER_DEGREE: f64 = EARTH_RADIUS * (std::f64::consts::PI / 180.);

fn angle_from_deg(deg: f64) -> Angle {
    Angle::from_bits((deg * (i32::MAX as f64 / 180.)) as i32)
}

fn angle_to_deg(angle: Angle) -> f64 {
    (angle.to_bits() as f64) * (180. / i32::MAX as f64)
}

fn new_deg(lat: f64, lng: f64) -> Location {
    Location::new(angle_from_deg(lat), angle_from_deg(lng))
}

fn lng_mm_per_degree(loc: Location) -> u32 {
    (LAT_M_PER_DEGREE * angle_to_deg(loc.lat).to_radians().cos() * 1000.) as u32
}

fn haversine_m(a: Location, b: Location) -> f64 {
    let a_lat = angle_to_deg(a.lat).to_radians();
    let b_lat = angle_to_deg(b.lat).to_radians();
    let delta_lat = b_lat - a_lat;
    let delta_lng = angle_to_deg(b.lng).to_radians() - angle_to_deg(a.lng).to_radians();
    let h = (delta_lat / 2.).sin().powi(2)
        + a_lat.cos() * b_lat.cos() * (delta_lng / 2.).sin().powi(2);
    EARTH_RADIUS * 2. * h.sqrt().asin()
}

#[test]
fn test_i_angle_accuracy() {
    for deg in -179..180 {
        let deg = deg as f64;
        let deg_i = angle_from_deg(deg);
        let deg_i_to_deg = angle_to_deg(deg_i);
        let deg_i_to_deg_to_i = angle_from_deg(deg_i_to_deg);

        assert_eq!(deg_i, deg_i_to_deg_to_i);

        let lng_m_per_degree = LAT_M_PER_DEGREE * deg.to_radians().cos();
        let lng_m_per_degree_i = LAT_M_PER_DEGREE * angle_to_deg(deg_i).to_radians().cos();

        assert!(
            (lng_m_per_degree - lng_m_per_degree_i).abs() < 0.001,
            "{lng_m_per_degree} - {lng_m_per_degree_i}"
        );
    }
}

#[test]
fn test_overestimate_distance_sqr() {
    for lat in 20..60 {
        for lng in -80..-40 {
            let loc_a = new_deg(lat as f64, lng as f64);
            let approx_lng_mm_per_degree = lng_mm_per_degree(loc_a);
            for offset_lat in -10..10 {
                for offset_lng in -10..10 {
                    let loc_b = new_deg(
                        angle_to_deg(loc_a.lat) + (offset_lat as f64) / 100.,
                        angle_to_deg(loc_a.lng) + (offset_lng as f64) / 100.,
                    );

                    let calculated_underestimate =
                        (underestimate_distance_sqr(loc_a, loc_b, approx_lng_mm_per_degree) as f64)
                            .sqrt()
                            / 1000.;
                    let calculated_actual = haversine_m(loc_a, loc_b);

                    assert!(
                        calculated_underestimate <= calculated_actual,
                        "{calculated_underestimate} <= {calculated_actual}"
                    );
                }
            }
        }
    }
}

#[test]
fn test_location_accuracy() {
    let (lat, lng) = (47.45647413331853, -69.99669220097549);
    let loc = new_deg(lat, lng);
    let (new_lat, new_lng) = (angle_to_deg(loc.lat), angle_to_deg(loc.lng));

    let a_lat = lat.to_radians();
    let b_lat = new_lat.to_radians();
    let h = ((b_lat - a_lat) / 2.).sin().powi(2)
        + a_lat.cos() * b_lat.cos() * ((new_lng.to_radians() - lng.to_radians()) / 2.).sin().powi(2);
    let dist = EARTH_RADIUS * 2. * h.sqrt().asin();
    assert!(dist < 0.01);
}

#[test]
fn angle_sum_wraps_around() {
    assert_eq!(Angle::from_bits(i32::MAX) + Angle::from_bits(1), Angle::from_bits(i32::MIN));
    assert_eq!(Angle::from_bits(i32::MIN) - Angle::from_bits(1), Angle::from_bits(i32::MAX));
    assert_eq!(Angle::from_bits(5) + Angle::from_bits(7), Angle::from_bits(12));
    assert_eq!(Angle::from_bits(5) - Angle::from_bits(7), Angle::from_bits(-2));
    assert_eq!(Angle::from_bits(-42).to_bits(), -42);
}

#[test]
fn angles_order_by_bits() {
    assert!(Angle::from_bits(-1) < Angle::from_bits(0));
    assert!(Angle::from_bits(3) > Angle::from_bits(2));
}

#[test]
fn heading_diff_is_the_smaller_arc() {
    assert_eq!(calculate_heading_diff(10_000_000, 350_000_000), 20_000_000);
    assert_eq!(calculate_heading_diff(0, 180_000_000), 180_000_000);
    assert_eq!(calculate_heading_diff(-90_000_000, 200_000_000), 70_000_000);
    assert_eq!(calculate_heading_diff(-350_000_000, 350_000_000), 20_000_000);
    assert_eq!(calculate_heading_diff(123, 123), 0);
    assert_eq!(calculate_heading_diff(i32::MAX, i32::MIN), 25_032_705);
}

#[test]
fn heading_diff_matches_the_formula_on_a_grid() {
    let mut a: i64 = -720_000_000;
    while a <= 720_000_000 {
        let mut b: i64 = -720_000_000;
        while b <= 720_000_000 {
            let m = (a - b).abs() % 360_000_000;
            let expected = m.min(360_000_000 - m);
            let d = calculate_heading_diff(a as i32, b as i32) as i64;
            assert_eq!(d, expected);
            assert!((0..=180_000_000).contains(&d));
            b += 17_500_000;
        }
        a += 12_500_000;
    }
}

#[test]
fn heading_gap_does_not_wrap() {
    assert_eq!(calculate_heading_gap(10_000_000, 350_000_000), 340_000_000);
    assert_eq!(calculate_heading_gap(350_000_000, 10_000_000), 340_000_000);
    assert_eq!(calculate_heading_gap(i32::MIN, i32::MAX), u32::MAX);
}

#[test]
fn headings_are_brought_into_a_full_turn() {
    assert_eq!(normalize_heading(-90_000_000), 270_000_000);
    assert_eq!(normalize_heading(360_000_000), 0);
    assert_eq!(normalize_heading(725_000_000), 5_000_000);
    assert_eq!(turn_heading(350_000_000, 45_000_000), 35_000_000);
    assert_eq!(turn_heading(10_000_000, -45_000_000), 325_000_000);
    assert_eq!(turn_heading(i32::MAX, i32::MAX), 334_967_294);
}

#[test]
fn underestimate_has_the_exact_value() {
    let a = Location::new(Angle::from_bits(0), Angle::from_bits(0));
    let b = Location::new(Angle::from_bits(1000), Angle::from_bits(0));
    assert_eq!(underestimate_distance_sqr(a, b, 80_000_000), 86_881_041);
    let c = Location::new(Angle::from_bits(-1000), Angle::from_bits(2000));
    assert_eq!(underestimate_distance_sqr(a, c, 80_000_000), 266_360_650);
    assert_eq!(underestimate_distance_sqr(c, a, 80_000_000), 266_360_650);
    assert_eq!(approx_distance_sqr(a, c, 80_000_000), 266_903_821);
    assert_eq!(underestimate_distance_sqr(a, a, 80_000_000), 0);
}

#[test]
fn longitude_gap_wraps_around_the_date_line() {
    let west = Location::new(Angle::from_bits(0), Angle::from_bits(i32::MIN + 500));
    let east = Location::new(Angle::from_bits(0), Angle::from_bits(i32::MAX - 499));
    let same = Location::new(Angle::from_bits(0), Angle::from_bits(1000));
    let zero = Location::new(Angle::from_bits(0), Angle::from_bits(0));
    assert_eq!(
        underestimate_distance_sqr(west, east, 80_000_000),
        underestimate_distance_sqr(same, zero, 80_000_000)
    );
}

#[test]
fn radius_checks_compare_with_the_square() {
    let a = Location::new(Angle::from_bits(0), Angle::from_bits(0));
    let b = Location::new(Angle::from_bits(1000), Angle::from_bits(0));
    assert!(is_at_least_within_radius(a, b, 9321, 80_000_000));
    assert!(!is_at_least_within_radius(a, b, 9320, 80_000_000));
    assert!(is_at_least_within_radius_sqr(a, b, 86_881_041, 80_000_000));
    assert!(!is_at_least_within_radius_sqr(a, b, 86_881_040, 80_000_000));
    assert!(is_at_least_within_radius(a, b, u64::MAX, 80_000_000));
}

#[test]
fn distance_within_radius_needs_both_checks() {
    let a = Location::new(Angle::from_bits(0), Angle::from_bits(0));
    let b = Location::new(Angle::from_bits(1000), Angle::from_bits(0));
    assert_eq!(distance_if_within_radius(a, b, 10_000, 80_000_000, 9_330), Some(9_330));
    assert_eq!(distance_if_within_radius(a, b, 10_000, 80_000_000, 10_001), None);
    assert_eq!(distance_if_within_radius(a, b, 9_000, 80_000_000, 8_000), None);
}

#[test]
fn stored_headings_are_read_as_microdegrees() {
    assert_eq!(heading_from_single(0x42b4_0000), Some(90_000_000));
    assert_eq!(heading_from_single(90.0f32.to_bits()), Some(90_000_000));
    assert_eq!(heading_from_single(0.1f32.to_bits()), Some(100_000));
    assert_eq!(heading_from_single((-45.5f32).to_bits()), Some(-45_500_000));
    assert_eq!(heading_from_single(0), Some(0));
    assert_eq!(heading_from_single(0x8000_0000), Some(0));
    assert_eq!(heading_from_single(1), Some(0));
    assert_eq!(heading_from_single(f32::MIN_POSITIVE.to_bits()), Some(0));
    assert_eq!(heading_from_single(2147.0f32.to_bits()), Some(2_147_000_000));
    assert_eq!(heading_from_single(2148.0f32.to_bits()), None);
    assert_eq!(heading_from_single(1.0e10f32.to_bits()), None);
    assert_eq!(heading_from_single(f32::MAX.to_bits()), None);
    assert_eq!(heading_from_single(f32::INFINITY.to_bits()), None);
    assert_eq!(heading_from_single(f32::NEG_INFINITY.to_bits()), None);
    assert_eq!(heading_from_single(f32::NAN.to_bits()), None);
}

#[test]
fn stored_headings_are_rounded_toward_zero() {
    let mut h = -400.0f32;
    while h < 400.0 {
        let expected = (h as f64 * 1e6).trunc() as i32;
        assert_eq!(heading_from_single(h.to_bits()), Some(expected), "{h}");
        h += 0.37109375;
    }
    let mut bits = 0x3000_0000u32;
    while bits < 0x4400_0000 {
        let h = f32::from_bits(bits);
        let expected = (h as f64 * 1e6).trunc() as i32;
        assert_eq!(heading_from_single(bits), Some(expected), "{h}");
        bits += 0x0001_2345;
    }
}

#[test]
fn the_lower_estimate_is_below_the_best_estimate() {
    let a = Location::new(Angle::from_bits(123_456), Angle::from_bits(-654_321));
    for dlat in [-100_000, -1, 0, 1, 7, 50_000] {
        for dlng in [-100_000, -1, 0, 1, 7, 50_000] {
            for scale in [0u32, 1, 1000, 80_000_000, 111_319_490, u32::MAX] {
                let b = Location::new(
                    Angle::from_bits(123_456 + dlat),
                    Angle::from_bits(-654_321 + dlng),
                );
                assert!(
                    underestimate_distance_sqr(a, b, scale) <= approx_distance_sqr(a, b, scale)
                );
            }
        }
    }
}

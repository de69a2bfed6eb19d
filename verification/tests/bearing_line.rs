use bearing_fix::bearing_line::BearingLine;
use bearing_fix::binary64::Double;
use bearing_fix::error::{Field, GeoError};
use bearing_fix::geo_helpers::HasPoint;

fn n(x: f64) -> Option<Double> {
    Some(Double::from_bits(x.to_bits()))
}

fn up(x: f64) -> f64 {
    f64::from_bits(x.to_bits() + 1)
}

fn error_of(r: Result<BearingLine, GeoError>) -> GeoError {
    match r {
        Ok(_) => panic!("a bearing line was made"),
        Err(e) => e,
    }
}

#[test]
fn bearing_line_without_declination() {
    let line = BearingLine::new(n(37.7749), n(-122.4194), n(45.0)).unwrap();
    assert_eq!(line.latitude().to_bits(), 37.7749f64.to_bits());
    assert_eq!(line.longitude().to_bits(), (-122.4194f64).to_bits());
    assert_eq!(line.bearing().to_bits(), 45.0f64.to_bits());
    assert_eq!(line.declination().to_bits(), 0.0f64.to_bits());
}

#[test]
fn bearing_line_with_declination() {
    let line = BearingLine::with_declination(n(37.7749), n(-122.4194), n(45.0), n(10.0)).unwrap();
    assert_eq!(line.bearing().to_bits(), 45.0f64.to_bits());
    assert_eq!(line.declination().to_bits(), 10.0f64.to_bits());
    assert_eq!(line.point().latitude().to_bits(), 37.7749f64.to_bits());
    assert_eq!(line.point().longitude().to_bits(), (-122.4194f64).to_bits());
}

#[test]
fn bearing_bounds_are_included() {
    assert!(BearingLine::new(n(0.0), n(0.0), n(0.0)).is_ok());
    assert!(BearingLine::new(n(0.0), n(0.0), n(-0.0)).is_ok());
    assert!(BearingLine::new(n(0.0), n(0.0), n(360.0)).is_ok());
    assert!(BearingLine::with_declination(n(0.0), n(0.0), n(350.0), n(180.0)).is_ok());
    assert!(BearingLine::with_declination(n(0.0), n(0.0), n(350.0), n(-180.0)).is_ok());
}

#[test]
fn bearing_beyond_bounds_is_refused() {
    assert_eq!(
        error_of(BearingLine::new(n(0.0), n(0.0), n(up(360.0)))),
        GeoError::Range(Field::Bearing)
    );
    assert_eq!(
        error_of(BearingLine::new(n(0.0), n(0.0), n(-f64::from_bits(1)))),
        GeoError::Range(Field::Bearing)
    );
    assert_eq!(
        error_of(BearingLine::new(n(0.0), n(0.0), n(f64::NAN))),
        GeoError::Range(Field::Bearing)
    );
}

#[test]
fn declination_beyond_bounds_is_refused() {
    assert_eq!(
        error_of(BearingLine::with_declination(n(0.0), n(0.0), n(10.0), n(up(180.0)))),
        GeoError::Range(Field::Declination)
    );
    assert_eq!(
        error_of(BearingLine::with_declination(n(0.0), n(0.0), n(10.0), n(up(-180.0)))),
        GeoError::Range(Field::Declination)
    );
}

#[test]
fn point_errors_come_unchanged() {
    assert_eq!(
        error_of(BearingLine::new(n(91.0), n(0.0), n(10.0))),
        GeoError::Range(Field::Latitude)
    );
    assert_eq!(
        error_of(BearingLine::new(n(0.0), n(181.0), n(10.0))),
        GeoError::Range(Field::Longitude)
    );
    assert_eq!(
        error_of(BearingLine::new(None, n(0.0), n(10.0))),
        GeoError::Conversion(Field::Latitude)
    );
    assert_eq!(
        error_of(BearingLine::new(n(0.0), None, n(10.0))),
        GeoError::Conversion(Field::Longitude)
    );
}

#[test]
fn point_errors_come_before_the_conversions_of_bearing_and_declination() {
    assert_eq!(
        error_of(BearingLine::with_declination(n(100.0), n(0.0), None, n(0.0))),
        GeoError::Range(Field::Latitude)
    );
    assert_eq!(
        error_of(BearingLine::with_declination(n(0.0), n(200.0), None, None)),
        GeoError::Range(Field::Longitude)
    );
    assert_eq!(
        error_of(BearingLine::with_declination(None, n(0.0), None, None)),
        GeoError::Conversion(Field::Latitude)
    );
    assert_eq!(
        error_of(BearingLine::with_declination(n(0.0), None, n(10.0), None)),
        GeoError::Conversion(Field::Longitude)
    );
    assert_eq!(
        error_of(BearingLine::new(n(100.0), n(0.0), None)),
        GeoError::Range(Field::Latitude)
    );
}

#[test]
fn conversions_of_bearing_and_declination_come_before_their_ranges() {
    assert_eq!(
        error_of(BearingLine::with_declination(n(0.0), n(0.0), None, None)),
        GeoError::Conversion(Field::Bearing)
    );
    assert_eq!(
        error_of(BearingLine::with_declination(n(0.0), n(0.0), None, n(200.0))),
        GeoError::Conversion(Field::Bearing)
    );
    assert_eq!(
        error_of(BearingLine::with_declination(n(0.0), n(0.0), n(400.0), None)),
        GeoError::Conversion(Field::Declination)
    );
    assert_eq!(
        error_of(BearingLine::new(n(0.0), n(0.0), None)),
        GeoError::Conversion(Field::Bearing)
    );
}

#[test]
fn point_is_validated_before_the_ranges_of_bearing_and_declination() {
    assert_eq!(
        error_of(BearingLine::with_declination(n(91.0), n(0.0), n(400.0), n(200.0))),
        GeoError::Range(Field::Latitude)
    );
    assert_eq!(
        error_of(BearingLine::with_declination(n(0.0), n(0.0), n(400.0), n(200.0))),
        GeoError::Range(Field::Bearing)
    );
}

//! An observation: a point and the compass bearing taken there.

use crate::binary64::{lemma_normal_value, lemma_within_by_value, Double, SIGN_BIT};
use crate::error::{Field, GeoError};
use crate::geo_helpers::HasPoint;
use crate::point::{is_latitude, is_longitude, Point, ONE_EIGHTY};
use vstd::arithmetic::power2::{lemma2_to64_rest, pow2};
use vstd::prelude::*;

verus! {

/// The encoding of 360, the largest bearing.
pub const THREE_SIXTY: u64 = 0x4076_8000_0000_0000;

/// Whether `x`, in degrees, is a compass bearing: 0 <= x <= 360.
pub open spec fn is_bearing(x: Double) -> bool {
    x.within(Double { bits: 0 }, Double { bits: THREE_SIXTY })
}

/// Whether `x`, in degrees, is a magnetic declination: -180 <= x <= 180.
pub open spec fn is_declination(x: Double) -> bool {
    x.within(Double { bits: (ONE_EIGHTY + SIGN_BIT) as u64 }, Double { bits: ONE_EIGHTY })
}

/// A line that leaves a point along a bearing. The bearing is the one that
/// the compass showed; the declination is what has to be added to it to get
/// the bearing against true north.
#[derive(Clone, Copy, Debug)]
pub struct BearingLine {
    point: Point,
    bearing: Double,
    declination: Double,
}

impl BearingLine {
    /// The point of observation.
    pub closed spec fn origin_point(self) -> Point {
        self.point
    }

    /// The observed bearing, in degrees.
    pub closed spec fn observed(self) -> Double {
        self.bearing
    }

    /// The declination, in degrees.
    pub closed spec fn correction(self) -> Double {
        self.declination
    }

    /// The point is well formed, and bearing and declination lie in their
    /// intervals.
    pub open spec fn wf(self) -> bool {
        &&& self.origin_point().wf()
        &&& is_bearing(self.observed())
        &&& is_declination(self.correction())
    }

    /// The error that `with_declination` gives for these arguments, if it
    /// gives one. The point is made first, and its errors come unchanged and
    /// before any other; then bearing and declination have to be numbers;
    /// then each has to lie in its interval.
    pub open spec fn refusal(
        latitude: Option<Double>,
        longitude: Option<Double>,
        bearing: Option<Double>,
        declination: Option<Double>,
    ) -> Option<GeoError> {
        if Point::refusal(latitude, longitude) is Some {
            Point::refusal(latitude, longitude)
        } else if bearing is None {
            Some(GeoError::Conversion(Field::Bearing))
        } else if declination is None {
            Some(GeoError::Conversion(Field::Declination))
        } else if !is_bearing(bearing->0) {
            Some(GeoError::Range(Field::Bearing))
        } else if !is_declination(declination->0) {
            Some(GeoError::Range(Field::Declination))
        } else {
            None
        }
    }

    /// A bearing line whose bearing needs no correction: the declination is
    /// positive zero.
    pub fn new(latitude: Option<Double>, longitude: Option<Double>, bearing: Option<Double>) -> (r:
        Result<BearingLine, GeoError>)
        ensures
            match BearingLine::refusal(latitude, longitude, bearing, Some(Double { bits: 0 })) {
                Some(e) => r == Err::<BearingLine, GeoError>(e),
                None => {
                    &&& r is Ok
                    &&& r->Ok_0.wf()
                    &&& r->Ok_0.origin_point().lat() == latitude->0
                    &&& r->Ok_0.origin_point().lon() == longitude->0
                    &&& r->Ok_0.observed() == bearing->0
                    &&& r->Ok_0.correction() == (Double { bits: 0 })
                },
            },
    {
        BearingLine::with_declination(latitude, longitude, bearing, Some(Double { bits: 0 }))
    }

    /// A bearing line from four numbers in degrees. `None` stands for an
    /// input that the caller could not convert to a number.
    pub fn with_declination(
        latitude: Option<Double>,
        longitude: Option<Double>,
        bearing: Option<Double>,
        declination: Option<Double>,
    ) -> (r: Result<BearingLine, GeoError>)
        ensures
            match BearingLine::refusal(latitude, longitude, bearing, declination) {
                Some(e) => r == Err::<BearingLine, GeoError>(e),
                None => {
                    &&& r is Ok
                    &&& r->Ok_0.wf()
                    &&& r->Ok_0.origin_point().lat() == latitude->0
                    &&& r->Ok_0.origin_point().lon() == longitude->0
                    &&& r->Ok_0.observed() == bearing->0
                    &&& r->Ok_0.correction() == declination->0
                },
            },
    {
        let point = match Point::new(latitude, longitude) {
            Ok(p) => p,
            Err(e) => {
                return Err(e);
            },
        };
        let bearing = match bearing {
            Some(x) => x,
            None => {
                return Err(GeoError::Conversion(Field::Bearing));
            },
        };
        let declination = match declination {
            Some(x) => x,
            None => {
                return Err(GeoError::Conversion(Field::Declination));
            },
        };
        if !bearing.is_within(Double { bits: 0 }, Double { bits: THREE_SIXTY }) {
            return Err(GeoError::Range(Field::Bearing));
        }
        if !declination.is_within(
            Double { bits: ONE_EIGHTY + SIGN_BIT },
            Double { bits: ONE_EIGHTY },
        ) {
            return Err(GeoError::Range(Field::Declination));
        }
        Ok(BearingLine { point, bearing, declination })
    }

    /// The latitude of the point of observation.
    pub fn latitude(&self) -> (x: Double)
        ensures
            x == self.origin_point().lat(),
    {
        self.point.latitude()
    }

    /// The longitude of the point of observation.
    pub fn longitude(&self) -> (x: Double)
        ensures
            x == self.origin_point().lon(),
    {
        self.point.longitude()
    }

    /// The bearing as observed.
    pub fn bearing(&self) -> (x: Double)
        ensures
            x == self.observed(),
    {
        self.bearing
    }

    /// The declination.
    pub fn declination(&self) -> (x: Double)
        ensures
            x == self.correction(),
    {
        self.declination
    }
}

impl HasPoint for BearingLine {
    open spec fn origin(&self) -> Point {
        self.origin_point()
    }

    fn point(&self) -> (p: &Point) {
        &self.point
    }
}

/// A number of degrees is a bearing exactly when it is finite and its value
/// lies between 0 and 360, both ends included. Negative zero has the value
/// zero and so is a bearing.
pub proof fn lemma_bearing_by_value(x: Double)
    ensures
        is_bearing(x) <==> x.finite() && 0 <= x.scaled() <= 360 * pow2(1074),
{
    let high = Double { bits: THREE_SIXTY };
    let low = Double { bits: 0 };
    lemma2_to64_rest();
    lemma_normal_value(high, 1031, 0x6_8000_0000_0000, 360, 44);
    assert(low.scaled() == 0) by {
        assert(low.significand() == 0);
        assert(0 * pow2(low.doublings()) == 0);
    }
    lemma_within_by_value(x, low, high);
}

/// A number of degrees is a declination exactly when it is a longitude.
pub proof fn lemma_declination_by_value(x: Double)
    ensures
        is_declination(x) <==> x.finite() && -180 * pow2(1074) <= x.scaled() <= 180 * pow2(
            1074,
        ),
{
    crate::point::lemma_longitude_by_value(x);
}

/// The point's errors come first: whenever latitude and longitude do not
/// make a point, `with_declination` gives the error that `Point::new` gives
/// for them, whatever bearing and declination are.
pub proof fn lemma_point_errors_come_first(
    latitude: Option<Double>,
    longitude: Option<Double>,
    bearing: Option<Double>,
    declination: Option<Double>,
)
    requires
        Point::refusal(latitude, longitude) is Some,
    ensures
        BearingLine::refusal(latitude, longitude, bearing, declination) == Point::refusal(
            latitude,
            longitude,
        ),
{
}

/// `with_declination` gives a line exactly when all four inputs are numbers
/// in their intervals.
pub proof fn lemma_with_declination_accepts(
    latitude: Option<Double>,
    longitude: Option<Double>,
    bearing: Option<Double>,
    declination: Option<Double>,
)
    ensures
        BearingLine::refusal(latitude, longitude, bearing, declination) is None <==> {
            &&& latitude is Some && is_latitude(latitude->0)
            &&& longitude is Some && is_longitude(longitude->0)
            &&& bearing is Some && is_bearing(bearing->0)
            &&& declination is Some && is_declination(declination->0)
        },
{
}

} // verus!

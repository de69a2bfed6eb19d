//! A point on the globe.

use crate::binary64::{
    lemma_normal_value, lemma_rank_orders_values, lemma_within_by_value, Double, SIGN_BIT,
};
use crate::error::{Field, GeoError};
use vstd::arithmetic::power2::{lemma2_to64_rest, pow2};
use vstd::prelude::*;

verus! {

/// The encoding of 90, the largest latitude.
pub const NINETY: u64 = 0x4056_8000_0000_0000;

/// The encoding of 180, the largest longitude.
pub const ONE_EIGHTY: u64 = 0x4066_8000_0000_0000;

/// Whether `x`, in degrees, is a latitude: -90 <= x <= 90.
pub open spec fn is_latitude(x: Double) -> bool {
    x.within(Double { bits: (NINETY + SIGN_BIT) as u64 }, Double { bits: NINETY })
}

/// Whether `x`, in degrees, is a longitude: -180 <= x <= 180.
pub open spec fn is_longitude(x: Double) -> bool {
    x.within(Double { bits: (ONE_EIGHTY + SIGN_BIT) as u64 }, Double { bits: ONE_EIGHTY })
}

/// A latitude and a longitude, in degrees.
#[derive(Clone, Copy, Debug)]
pub struct Point {
    latitude: Double,
    longitude: Double,
}

impl Point {
    /// The latitude, north positive.
    pub closed spec fn lat(self) -> Double {
        self.latitude
    }

    /// The longitude, east positive.
    pub closed spec fn lon(self) -> Double {
        self.longitude
    }

    /// Both coordinates lie in their intervals.
    pub open spec fn wf(self) -> bool {
        is_latitude(self.lat()) && is_longitude(self.lon())
    }

    /// The error that `new` gives for these arguments, if it gives one. The
    /// latitude is looked at before the longitude, and whether each is a
    /// number before whether either is in range.
    pub open spec fn refusal(latitude: Option<Double>, longitude: Option<Double>) -> Option<
        GeoError,
    > {
        if latitude is None {
            Some(GeoError::Conversion(Field::Latitude))
        } else if longitude is None {
            Some(GeoError::Conversion(Field::Longitude))
        } else if !is_latitude(latitude->0) {
            Some(GeoError::Range(Field::Latitude))
        } else if !is_longitude(longitude->0) {
            Some(GeoError::Range(Field::Longitude))
        } else {
            None
        }
    }

    /// Makes a point of a latitude and a longitude in degrees. `None` stands
    /// for an input that the caller could not convert to a number.
    pub fn new(latitude: Option<Double>, longitude: Option<Double>) -> (r: Result<Point, GeoError>)
        ensures
            match Point::refusal(latitude, longitude) {
                Some(e) => r == Err::<Point, GeoError>(e),
                None => r is Ok && r->Ok_0.lat() == latitude->0 && r->Ok_0.lon() == longitude->0
                    && r->Ok_0.wf(),
            },
    {
        let lat = match latitude {
            Some(x) => x,
            None => {
                return Err(GeoError::Conversion(Field::Latitude));
            },
        };
        let lon = match longitude {
            Some(x) => x,
            None => {
                return Err(GeoError::Conversion(Field::Longitude));
            },
        };
        if !lat.is_within(Double { bits: NINETY + SIGN_BIT }, Double { bits: NINETY }) {
            return Err(GeoError::Range(Field::Latitude));
        }
        if !lon.is_within(Double { bits: ONE_EIGHTY + SIGN_BIT }, Double { bits: ONE_EIGHTY }) {
            return Err(GeoError::Range(Field::Longitude));
        }
        Ok(Point { latitude: lat, longitude: lon })
    }

    pub fn latitude(&self) -> (x: Double)
        ensures
            x == self.lat(),
    {
        self.latitude
    }

    pub fn longitude(&self) -> (x: Double)
        ensures
            x == self.lon(),
    {
        self.longitude
    }
}

/// A point is its two coordinates: points that agree in both are one point.
pub proof fn lemma_point_by_coordinates(p: Point, q: Point)
    requires
        p.lat() == q.lat(),
        p.lon() == q.lon(),
    ensures
        p == q,
{
}

/// The coordinates of a well-formed point make a point again: `new` refuses
/// nothing that it once handed out.
pub proof fn lemma_coordinates_are_accepted_again(p: Point)
    requires
        p.wf(),
    ensures
        Point::refusal(Some(p.lat()), Some(p.lon())) is None,
{
}

/// A number of degrees is a latitude exactly when it is finite and its value
/// lies between -90 and 90, both ends included. Values are counted in units
/// of two to the power -1074.
pub proof fn lemma_latitude_by_value(x: Double)
    ensures
        is_latitude(x) <==> x.finite() && -90 * pow2(1074) <= x.scaled() <= 90 * pow2(1074),
{
    let high = Double { bits: NINETY };
    lemma2_to64_rest();
    lemma_normal_value(high, 1029, 0x6_8000_0000_0000, 90, 46);
    assert(high.negated().scaled() == -high.scaled());
    lemma_within_by_value(x, high.negated(), high);
}

/// A number of degrees is a longitude exactly when it is finite and its
/// value lies between -180 and 180, both ends included.
pub proof fn lemma_longitude_by_value(x: Double)
    ensures
        is_longitude(x) <==> x.finite() && -180 * pow2(1074) <= x.scaled() <= 180 * pow2(1074),
{
    let high = Double { bits: ONE_EIGHTY };
    lemma2_to64_rest();
    lemma_normal_value(high, 1030, 0x6_8000_0000_0000, 180, 45);
    assert(high.negated().scaled() == -high.scaled());
    lemma_within_by_value(x, high.negated(), high);
}

/// `new` accepts a pair of numbers exactly when the latitude's value lies in
/// [-90, 90] and the longitude's in [-180, 180].
pub proof fn lemma_new_accepts(latitude: Double, longitude: Double)
    ensures
        Point::refusal(Some(latitude), Some(longitude)) is None <==> {
            &&& latitude.finite()
            &&& longitude.finite()
            &&& -90 * pow2(1074) <= latitude.scaled() <= 90 * pow2(1074)
            &&& -180 * pow2(1074) <= longitude.scaled() <= 180 * pow2(1074)
        },
{
    lemma_latitude_by_value(latitude);
    lemma_longitude_by_value(longitude);
}

/// In the encoding, the latitudes are the numbers whose magnitude is at most
/// that of 90, and the longitudes those whose magnitude is at most that of
/// 180. The numbers next after 90 and 180, whose encodings are larger by one,
/// are therefore out of range, as are their negatives.
pub proof fn lemma_range_by_magnitude(x: Double)
    ensures
        is_latitude(x) <==> x.magnitude() <= NINETY,
        is_longitude(x) <==> x.magnitude() <= ONE_EIGHTY,
{
    let ninety = Double { bits: NINETY };
    lemma_rank_orders_values(ninety.negated(), x);
    lemma_rank_orders_values(x, ninety);
    let one_eighty = Double { bits: ONE_EIGHTY };
    lemma_rank_orders_values(one_eighty.negated(), x);
    lemma_rank_orders_values(x, one_eighty);
}

} // verus!

//! Where two bearing lines cross: the decisions.
//!
//! The crossing is found by solving a spherical triangle in binary64
//! arithmetic. That arithmetic is the caller's; what it produced is handed
//! in as `Workings`, and the rules that turn it into a point or an error are
//! here.

use crate::bearing_line::BearingLine;
use crate::binary64::Double;
use crate::error::GeoError;
use crate::point::{
    lemma_latitude_by_value, lemma_longitude_by_value, lemma_point_by_coordinates, Point,
};
use vstd::arithmetic::power2::pow2;
use vstd::prelude::*;

verus! {

/// Anything that stands at a point.
pub trait HasPoint {
    /// The point, as contracts see it.
    spec fn origin(&self) -> Point;

    /// The point.
    fn point(&self) -> (p: &Point)
        ensures
            *p == self.origin(),
    ;
}

impl HasPoint for Point {
    open spec fn origin(&self) -> Point {
        *self
    }

    fn point(&self) -> (p: &Point) {
        self
    }
}

/// What the arithmetic produced for a pair of bearing lines. Angles are in
/// radians unless said otherwise, and longitudes count west as positive.
#[derive(Clone, Copy, Debug)]
pub struct Workings {
    /// Latitude of the first line's origin.
    pub lat1: Double,
    /// Longitude of the first line's origin.
    pub lon1: Double,
    /// Latitude of the second line's origin.
    pub lat2: Double,
    /// Longitude of the second line's origin.
    pub lon2: Double,
    /// Angular distance between the two origins.
    pub dst12: Double,
    /// Sine of the offset of the first line's true bearing from the course
    /// that leads from the first origin to the second.
    pub sin_ang1: Double,
    /// Sine of the offset of the second line's true bearing from the course
    /// that leads from the second origin to the first.
    pub sin_ang2: Double,
    /// Latitude of the crossing in degrees, rounded to five decimals.
    pub latitude: Double,
    /// Longitude of the crossing in degrees, east positive, rounded to five
    /// decimals.
    pub longitude: Double,
}

/// Two points with equal latitudes and equal longitudes.
pub open spec fn same_place(a: Point, b: Point) -> bool {
    a.lat().same(b.lat()) && a.lon().same(b.lon())
}

/// The error that `get_intersection` gives, if it gives one. The tests are
/// made in this order, and the first that applies decides:
/// the lines start at one place, by their coordinates in degrees or by the
/// radians computed from them; the distance between the origins is zero;
/// both offsets from the course between the origins have sine zero, so that
/// both lines run along that course; the crossing is no valid point.
pub open spec fn refusal(bl1: BearingLine, bl2: BearingLine, w: Workings) -> Option<GeoError> {
    if same_place(bl1.origin_point(), bl2.origin_point()) {
        Some(GeoError::SamePoint)
    } else if w.lat1.same(w.lat2) && w.lon1.same(w.lon2) {
        Some(GeoError::SamePoint)
    } else if w.dst12.zero() {
        Some(GeoError::CoincidentPoints)
    } else if w.sin_ang1.zero() && w.sin_ang2.zero() {
        Some(GeoError::InfiniteIntersections)
    } else {
        Point::refusal(Some(w.latitude), Some(w.longitude))
    }
}

/// Whether `r` is the answer for two bearing lines and their workings: the
/// error of `refusal` where there is one, and otherwise the valid point at
/// the computed latitude and longitude.
pub open spec fn answers(
    bl1: BearingLine,
    bl2: BearingLine,
    w: Workings,
    r: Result<Point, GeoError>,
) -> bool {
    match refusal(bl1, bl2, w) {
        Some(e) => r == Err::<Point, GeoError>(e),
        None => {
            &&& r is Ok
            &&& r->Ok_0.wf()
            &&& r->Ok_0.lat() == w.latitude
            &&& r->Ok_0.lon() == w.longitude
        },
    }
}

/// Decides what the crossing of two bearing lines is, given the workings of
/// the triangle's solution.
pub fn get_intersection(bl1: &BearingLine, bl2: &BearingLine, w: &Workings) -> (r: Result<
    Point,
    GeoError,
>)
    ensures
        answers(*bl1, *bl2, *w, r),
{
    if bl1.latitude().eq(bl2.latitude()) && bl1.longitude().eq(bl2.longitude()) {
        return Err(GeoError::SamePoint);
    }
    if w.lat1.eq(w.lat2) && w.lon1.eq(w.lon2) {
        return Err(GeoError::SamePoint);
    }
    if w.dst12.is_zero() {
        return Err(GeoError::CoincidentPoints);
    }
    if w.sin_ang1.is_zero() && w.sin_ang2.is_zero() {
        return Err(GeoError::InfiniteIntersections);
    }
    Point::new(Some(w.latitude), Some(w.longitude))
}

/// The same lines and workings have one answer: whatever is handed out for
/// them twice is the same both times, to the last bit.
pub proof fn lemma_one_answer(
    bl1: BearingLine,
    bl2: BearingLine,
    w: Workings,
    first: Result<Point, GeoError>,
    second: Result<Point, GeoError>,
)
    requires
        answers(bl1, bl2, w, first),
        answers(bl1, bl2, w, second),
    ensures
        first == second,
{
    if refusal(bl1, bl2, w) is None {
        lemma_point_by_coordinates(first->Ok_0, second->Ok_0);
    }
}

/// Two lines that start at the same coordinates have no intersection to
/// look for: whatever the workings hold, the answer is `SamePoint`.
pub proof fn lemma_same_origin_is_refused(bl1: BearingLine, bl2: BearingLine, w: Workings)
    requires
        bl1.wf(),
        bl2.wf(),
        bl1.origin_point().lat() == bl2.origin_point().lat(),
        bl1.origin_point().lon() == bl2.origin_point().lon(),
    ensures
        refusal(bl1, bl2, w) == Some(GeoError::SamePoint),
{
}

/// Lines that both run along the great circle through their origins have
/// no single crossing: where the origins differ and lie apart, and both
/// offsets from the course between them have sine zero, the answer is
/// `InfiniteIntersections`, whatever crossing the workings hold.
pub proof fn lemma_lines_along_the_course_are_refused(
    bl1: BearingLine,
    bl2: BearingLine,
    w: Workings,
)
    requires
        !same_place(bl1.origin_point(), bl2.origin_point()),
        !(w.lat1.same(w.lat2) && w.lon1.same(w.lon2)),
        !w.dst12.zero(),
        w.sin_ang1.zero(),
        w.sin_ang2.zero(),
    ensures
        refusal(bl1, bl2, w) == Some(GeoError::InfiniteIntersections),
{
}

/// A crossing that is handed out is a point with finite coordinates whose
/// values lie in [-90, 90] and [-180, 180], and `Point::new` accepts its
/// coordinates again: it can stand as an end of a distance.
pub proof fn lemma_crossing_is_valid(bl1: BearingLine, bl2: BearingLine, w: Workings)
    requires
        refusal(bl1, bl2, w) is None,
    ensures
        Point::refusal(Some(w.latitude), Some(w.longitude)) is None,
        w.latitude.finite(),
        w.longitude.finite(),
        -90 * pow2(1074) <= w.latitude.scaled() <= 90 * pow2(1074),
        -180 * pow2(1074) <= w.longitude.scaled() <= 180 * pow2(1074),
{
    lemma_latitude_by_value(w.latitude);
    lemma_longitude_by_value(w.longitude);
}

} // verus!

//! What can be wrong with an observation or with a pair of bearing lines.

use vstd::prelude::*;

verus! {

/// The four numbers of an observation.
#[derive(Clone, Copy, Debug, PartialEq, Eq, Structural)]
pub enum Field {
    Latitude,
    Longitude,
    Bearing,
    Declination,
}

/// Every failure is a value handed back to the caller.
#[derive(Clone, Copy, Debug, PartialEq, Eq, Structural)]
pub enum GeoError {
    /// The caller could not turn what it was given into a number.
    Conversion(Field),
    /// The number lies outside the closed interval that the field allows.
    Range(Field),
    /// Both lines start at one point.
    SamePoint,
    /// The angular distance between the starting points came out as zero.
    CoincidentPoints,
    /// The lines run along one great circle and cross nowhere or everywhere.
    InfiniteIntersections,
}

impl GeoError {
    /// The sentence that `message` returns.
    pub open spec fn text(self) -> Seq<char> {
        match self {
            GeoError::Conversion(Field::Latitude) => "Failed to convert latitude to a number. It should be between -90 and 90 degrees."@,
            GeoError::Conversion(Field::Longitude) => "Failed to convert longitude to a number. It should be between -180 and 180 degrees."@,
            GeoError::Conversion(Field::Bearing) => "Failed to convert bearing to a number. It should be between 0 and 360 degrees."@,
            GeoError::Conversion(Field::Declination) => "Failed to convert declination to a number. It should be between -180 and 180 degrees."@,
            GeoError::Range(Field::Latitude) => "Latitude must be between -90 and 90 degrees."@,
            GeoError::Range(Field::Longitude) => "Longitude must be between -180 and 180 degrees."@,
            GeoError::Range(Field::Bearing) => "Bearing must be between 0 and 360 degrees."@,
            GeoError::Range(Field::Declination) => "Declination must be between -180 and 180 degrees."@,
            GeoError::SamePoint => "Latitudes and longitudes are the same. You are already at the intersection."@,
            GeoError::CoincidentPoints => "The points are coincident. No intersection."@,
            GeoError::InfiniteIntersections => "Infinite intersections. Are the lines on top of each other?"@,
        }
    }

    /// A sentence for the reader; a range error names its field and bounds.
    pub fn message(&self) -> (s: String)
        ensures
            s@ == self.text(),
    {
        match self {
            GeoError::Conversion(Field::Latitude) => "Failed to convert latitude to a number. It should be between -90 and 90 degrees.".to_owned(),
            GeoError::Conversion(Field::Longitude) => "Failed to convert longitude to a number. It should be between -180 and 180 degrees.".to_owned(),
            GeoError::Conversion(Field::Bearing) => "Failed to convert bearing to a number. It should be between 0 and 360 degrees.".to_owned(),
            GeoError::Conversion(Field::Declination) => "Failed to convert declination to a number. It should be between -180 and 180 degrees.".to_owned(),
            GeoError::Range(Field::Latitude) => "Latitude must be between -90 and 90 degrees.".to_owned(),
            GeoError::Range(Field::Longitude) => "Longitude must be between -180 and 180 degrees.".to_owned(),
            GeoError::Range(Field::Bearing) => "Bearing must be between 0 and 360 degrees.".to_owned(),
            GeoError::Range(Field::Declination) => "Declination must be between -180 and 180 degrees.".to_owned(),
            GeoError::SamePoint => "Latitudes and longitudes are the same. You are already at the intersection.".to_owned(),
            GeoError::CoincidentPoints => "The points are coincident. No intersection.".to_owned(),
            GeoError::InfiniteIntersections => "Infinite intersections. Are the lines on top of each other?".to_owned(),
        }
    }
}

} // verus!

//! Position types and the capability traits that let any value with
//! coordinates — and optionally altitude, accuracy and timestamp — take part
//! in distance computation, way recording and spatial indexing.
//!
//! Lengths are in millimetres, timestamps in milliseconds since the Unix
//! epoch, angles in ten-millionths of a degree.

use crate::earth::{project, project_of, Coord};
use crate::vect::{bounded, norm_sq, IVec3, SCALE};
use vstd::prelude::*;

verus! {

/// A value with coordinates on the Earth's surface, and possibly a
/// horizontal accuracy.
pub trait Coords: Sized {
    /// The coordinates, as seen by contracts.
    spec fn spec_coords(&self) -> Coord;

    /// The horizontal accuracy in millimetres, as seen by contracts.
    spec fn spec_accuracy(&self) -> Option<u64>;

    /// The coordinates.
    fn coords(&self) -> (r: Coord)
        ensures
            r == self.spec_coords(),
    ;

    /// The horizontal accuracy in millimetres, if reported.
    fn accuracy(&self) -> (r: Option<u64>)
        ensures
            r == self.spec_accuracy(),
    ;

    /// The scaled unit n-vector of the coordinates.
    fn nvector(&self) -> (r: IVec3)
        ensures
            (r.x as int, r.y as int, r.z as int) == project_of(
                self.spec_coords().lat_e7 as int,
                self.spec_coords().lon_e7 as int,
            ),
            bounded(r, SCALE as int),
            norm_sq(r) <= (SCALE as int) * (SCALE as int) + 2 * (SCALE as int),
            norm_sq(r) >= (SCALE as int) * (SCALE as int) - 2 * (SCALE as int),
    {
        project(self.coords())
    }
}

/// A value with altitude information.
pub trait Altitude: Sized {
    /// The altitude in millimetres, as seen by contracts.
    spec fn spec_altitude(&self) -> Option<i64>;

    /// The accuracy of the altitude in millimetres, as seen by contracts.
    spec fn spec_altitude_accuracy(&self) -> Option<u64>;

    /// The altitude in millimetres above nominal sea level, if reported.
    fn altitude(&self) -> (r: Option<i64>)
        ensures
            r == self.spec_altitude(),
    ;

    /// The accuracy of the altitude in millimetres, if reported.
    fn altitude_accuracy(&self) -> (r: Option<u64>)
        ensures
            r == self.spec_altitude_accuracy(),
    ;
}

/// A recorded position: coordinates, altitude and a capture timestamp.
pub trait RecordedPos: Coords + Altitude {
    /// The capture timestamp, as seen by contracts.
    spec fn spec_timestamp(&self) -> i64;

    /// The capture timestamp in milliseconds since the Unix epoch.
    fn timestamp(&self) -> (r: i64)
        ensures
            r == self.spec_timestamp(),
    ;
}

/// A position.
#[derive(Clone, Copy, PartialEq, Eq, Structural, Debug)]
pub struct Position {
    pub coords: Coord,
    /// Altitude above nominal sea level, in millimetres.
    pub altitude: Option<i64>,
    /// Accuracy of the coordinates, in millimetres.
    pub accuracy: Option<u64>,
    /// Accuracy of the altitude, in millimetres.
    pub altitude_accuracy: Option<u64>,
}

impl Position {
    /// Build a position from anything with coordinates and altitude.
    pub fn from_sample<T: Coords + Altitude>(x: &T) -> (r: Position)
        ensures
            r.coords == x.spec_coords(),
            r.altitude == x.spec_altitude(),
            r.accuracy == x.spec_accuracy(),
            r.altitude_accuracy == x.spec_altitude_accuracy(),
    {
        Position {
            coords: x.coords(),
            altitude: x.altitude(),
            accuracy: x.accuracy(),
            altitude_accuracy: x.altitude_accuracy(),
        }
    }
}

impl Coords for Position {
    open spec fn spec_coords(&self) -> Coord {
        self.coords
    }

    open spec fn spec_accuracy(&self) -> Option<u64> {
        self.accuracy
    }

    fn coords(&self) -> Coord {
        self.coords
    }

    fn accuracy(&self) -> Option<u64> {
        self.accuracy
    }
}

impl Altitude for Position {
    open spec fn spec_altitude(&self) -> Option<i64> {
        self.altitude
    }

    open spec fn spec_altitude_accuracy(&self) -> Option<u64> {
        self.altitude_accuracy
    }

    fn altitude(&self) -> Option<i64> {
        self.altitude
    }

    fn altitude_accuracy(&self) -> Option<u64> {
        self.altitude_accuracy
    }
}

impl Coords for Coord {
    open spec fn spec_coords(&self) -> Coord {
        *self
    }

    open spec fn spec_accuracy(&self) -> Option<u64> {
        None
    }

    fn coords(&self) -> Coord {
        *self
    }

    fn accuracy(&self) -> Option<u64> {
        None
    }
}

/// A position with a capture timestamp.
#[derive(Clone, Copy, PartialEq, Eq, Structural, Debug)]
pub struct PosWithTimestamp {
    pub pos: Position,
    /// Milliseconds since the Unix epoch.
    pub timestamp: i64,
}

impl PosWithTimestamp {
    /// Build from any recorded position.
    pub fn from_recorded<T: RecordedPos>(x: &T) -> (r: PosWithTimestamp)
        ensures
            r.pos.coords == x.spec_coords(),
            r.pos.altitude == x.spec_altitude(),
            r.pos.accuracy == x.spec_accuracy(),
            r.pos.altitude_accuracy == x.spec_altitude_accuracy(),
            r.timestamp == x.spec_timestamp(),
    {
        PosWithTimestamp { pos: Position::from_sample(x), timestamp: x.timestamp() }
    }
}

impl Coords for PosWithTimestamp {
    open spec fn spec_coords(&self) -> Coord {
        self.pos.coords
    }

    open spec fn spec_accuracy(&self) -> Option<u64> {
        self.pos.accuracy
    }

    fn coords(&self) -> Coord {
        self.pos.coords
    }

    fn accuracy(&self) -> Option<u64> {
        self.pos.accuracy
    }
}

impl Altitude for PosWithTimestamp {
    open spec fn spec_altitude(&self) -> Option<i64> {
        self.pos.altitude
    }

    open spec fn spec_altitude_accuracy(&self) -> Option<u64> {
        self.pos.altitude_accuracy
    }

    fn altitude(&self) -> Option<i64> {
        self.pos.altitude
    }

    fn altitude_accuracy(&self) -> Option<u64> {
        self.pos.altitude_accuracy
    }
}

impl RecordedPos for PosWithTimestamp {
    open spec fn spec_timestamp(&self) -> i64 {
        self.timestamp
    }

    fn timestamp(&self) -> i64 {
        self.timestamp
    }
}

/// A received geolocation sample, already in the crate's units.
#[derive(Clone, Copy, PartialEq, Eq, Structural, Debug)]
pub struct GeoInfo {
    /// When the position was retrieved, in milliseconds since the Unix epoch.
    pub timestamp: i64,
    /// The latitude and longitude of the device.
    pub coords: Coord,
    /// The altitude of the device in millimetres, if reported.
    pub altitude: Option<i64>,
    /// The accuracy of the coordinates in millimetres, if reported.
    pub accuracy: Option<u64>,
    /// The accuracy of the altitude in millimetres, if reported.
    pub altitude_accuracy: Option<u64>,
    /// How far off true north the device heads, in ten-millionths of a
    /// degree clockwise, if reported.
    pub bearing: Option<i64>,
    /// The velocity of the device in millimetres per second, if reported.
    pub volocity: Option<i64>,
}

impl Coords for GeoInfo {
    open spec fn spec_coords(&self) -> Coord {
        self.coords
    }

    open spec fn spec_accuracy(&self) -> Option<u64> {
        self.accuracy
    }

    fn coords(&self) -> Coord {
        self.coords
    }

    fn accuracy(&self) -> Option<u64> {
        self.accuracy
    }
}

impl Altitude for GeoInfo {
    open spec fn spec_altitude(&self) -> Option<i64> {
        self.altitude
    }

    open spec fn spec_altitude_accuracy(&self) -> Option<u64> {
        self.altitude_accuracy
    }

    fn altitude(&self) -> Option<i64> {
        self.altitude
    }

    fn altitude_accuracy(&self) -> Option<u64> {
        self.altitude_accuracy
    }
}

impl RecordedPos for GeoInfo {
    open spec fn spec_timestamp(&self) -> i64 {
        self.timestamp
    }

    fn timestamp(&self) -> i64 {
        self.timestamp
    }
}

/// A saved position: a position, when it was captured, and the name the user
/// chose for it.
#[derive(Clone, PartialEq, Debug)]
pub struct SavedPos {
    pub name: String,
    pub pos: Position,
    /// Milliseconds since the Unix epoch.
    pub timestamp: i64,
}

impl SavedPos {
    /// Build a saved position from a geolocation sample and a name.
    pub fn new(name: String, geo: &GeoInfo) -> (r: SavedPos)
        ensures
            r.name == name,
            r.pos.coords == geo.coords,
            r.pos.altitude == geo.altitude,
            r.pos.accuracy == geo.accuracy,
            r.pos.altitude_accuracy == geo.altitude_accuracy,
            r.timestamp == geo.timestamp,
    {
        SavedPos { name, pos: Position::from_sample(geo), timestamp: geo.timestamp }
    }

    /// An equal copy. (`SavedPos` owns a `String`, so it is not `Copy`.)
    pub fn duplicate(&self) -> (r: SavedPos)
        ensures
            r == *self,
    {
        SavedPos { name: self.name.clone(), pos: self.pos, timestamp: self.timestamp }
    }
}

impl Coords for SavedPos {
    open spec fn spec_coords(&self) -> Coord {
        self.pos.coords
    }

    open spec fn spec_accuracy(&self) -> Option<u64> {
        self.pos.accuracy
    }

    fn coords(&self) -> Coord {
        self.pos.coords
    }

    fn accuracy(&self) -> Option<u64> {
        self.pos.accuracy
    }
}

impl Altitude for SavedPos {
    open spec fn spec_altitude(&self) -> Option<i64> {
        self.pos.altitude
    }

    open spec fn spec_altitude_accuracy(&self) -> Option<u64> {
        self.pos.altitude_accuracy
    }

    fn altitude(&self) -> Option<i64> {
        self.pos.altitude
    }

    fn altitude_accuracy(&self) -> Option<u64> {
        self.pos.altitude_accuracy
    }
}

impl RecordedPos for SavedPos {
    open spec fn spec_timestamp(&self) -> i64 {
        self.timestamp
    }

    fn timestamp(&self) -> i64 {
        self.timestamp
    }
}

} // verus!

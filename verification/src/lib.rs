//! A verified geospatial core: positions on a sphere, an earth-surface
//! projection for nearest-neighbour ranking, time-stamped ways with
//! incrementally maintained length and accuracy statistics, minor-arc
//! bounding envelopes, and a name-keyed registry of saved positions.

pub mod capabilities;
pub mod earth;
pub mod index;
pub mod line;
pub mod model;
pub mod pos;
pub mod registry;
pub mod vect;
pub mod way;

use vstd::prelude::*;

use crate::model::Coordinate;

verus! {

/// A place found by the geocoder: `x` is the longitude and `y` the latitude,
/// in decimal degrees, as the geocoder wrote them.
#[derive(Clone, Debug, PartialEq, Eq)]
pub struct Address {
    pub x: String,
    pub y: String,
}

#[derive(Clone, Debug, PartialEq, Eq)]
pub enum LocationErrors {
    CreateServiceError { msg: String },
    SearchError { msg: String },
}

/// The coordinate of a place that the geocoder found, if it found one.
pub fn coordinate_of(address: Option<Address>) -> (r: Option<Coordinate>)
    ensures
        match address {
            Some(a) => r == Some(Coordinate { latitude: a.y, longitude: a.x }),
            None => r is None,
        },
{
    match address {
        Some(a) => Some(Coordinate { latitude: a.y, longitude: a.x }),
        None => None,
    }
}

} // verus!

use vstd::prelude::*;

use geojson::GeometryValue;

use crate::geojson::GeoFeature;
use crate::types::ScanError;

verus! {

#[verifier::external_type_specification]
#[verifier::external_body]
pub struct ExGeoJsonGeometry(geojson::Geometry);

/// Relies on the layout of geojson's `GeometryValue`: says whether every
/// position of the geometry holds at least two coordinates. geojson parses
/// shorter positions without complaint, but its geo-types conversion
/// indexes the first two coordinates of every position unchecked, so a
/// short position must be found before that call is made.
#[verifier::external_body]
fn positions_complete(g: &geojson::Geometry) -> bool {
    let all = |pp: &Vec<geojson::Position>| pp.iter().all(|p| p.len() >= 2);
    let mut queue: Vec<&GeometryValue> = vec![&g.value];
    while let Some(value) = queue.pop() {
        let ok = match value {
            GeometryValue::Point { coordinates } => coordinates.len() >= 2,
            GeometryValue::MultiPoint { coordinates } | GeometryValue::LineString { coordinates } => all(coordinates),
            GeometryValue::MultiLineString { coordinates } | GeometryValue::Polygon { coordinates } => coordinates.iter().all(&all),
            GeometryValue::MultiPolygon { coordinates } => coordinates.iter().flatten().all(&all),
            GeometryValue::GeometryCollection { geometries } => { queue.extend(geometries.iter().map(|geom| &geom.value)); true },
        };
        if !ok { return false; }
    }
    true
}

/// Relies on geojson's geo-types conversion and wkb's `write_geometry`:
/// encodes one GeoJSON geometry object as OGC Well-Known Binary. A
/// geometry with a short position is refused up front: the conversion
/// would panic on it. The bytes are a function of the opaque geometry
/// value; nothing further is assumed of them, so callers state what holds
/// of every outcome.
#[verifier::external_body]
fn geometry_to_wkb(g: &geojson::Geometry) -> (r: Result<Vec<u8>, ScanError>)
    ensures
        r is Ok || r matches Err(ScanError::CorruptGeometry(_)),
{
    if !positions_complete(g) {
        return Err(ScanError::CorruptGeometry(String::from("short position")));
    }
    let geometry: geo_types::Geometry = match geo_types::Geometry::try_from(&g.value) {
        Ok(geometry) => geometry,
        Err(_) => return Err(ScanError::CorruptGeometry(String::from("geometry value"))),
    };
    let mut buffer: Vec<u8> = Vec::new();
    let options = wkb::writer::WriteOptions::default();
    match wkb::writer::write_geometry(&mut buffer, &geometry, &options) {
        Ok(()) => Ok(buffer),
        Err(_) => Err(ScanError::CorruptGeometry(String::from("wkb encoding"))),
    }
}

/// The geometry codec for GeoJSON features.
pub struct WkbConverter {}

impl WkbConverter {
    pub fn new() -> (r: Self) {
        WkbConverter {  }
    }

    /// Converts one feature's geometry to WKB bytes. GeoJSON features feed
    /// a format that mandates geometry, so a feature without one is refused
    /// outright, never emitted as a NULL cell; a geometry with a short
    /// position is refused as corrupt.
    pub fn convert(&mut self, feature: &GeoFeature) -> (r: Result<Vec<u8>, ScanError>)
        ensures
            (feature.geometry is None) <==> r == Err::<Vec<u8>, ScanError>(
                ScanError::MissingGeometry,
            ),
            feature.geometry is Some ==> (r is Ok || r matches Err(ScanError::CorruptGeometry(_))),
    {
        match &feature.geometry {
            Some(g) => {
                if !positions_complete(g) {
                    Err(ScanError::CorruptGeometry(String::from_str("short position")))
                } else {
                    geometry_to_wkb(g)
                }
            },
            None => Err(ScanError::MissingGeometry),
        }
    }
}

} // verus!

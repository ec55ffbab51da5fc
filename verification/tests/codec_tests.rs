use st_read_multi::gpkg_geometry_to_wkb;
use st_read_multi::GeoFeature;
use st_read_multi::WkbConverter;

/// A synthetic GeoPackage geometry blob: the two magic bytes, a version, the
/// given flags, an envelope of the given size, then the payload.
fn gpkg_blob(flags: u8, envelope_len: usize, payload: &[u8]) -> Vec<u8> {
    let mut blob = vec![0x47, 0x50, 0x00, flags];
    blob.extend(std::iter::repeat(0xEE).take(4 + envelope_len));
    blob.extend_from_slice(payload);
    blob
}

#[test]
fn envelope_xy_payload_starts_at_forty() {
    // flags 0b00000010: a 32-byte [minx, maxx, miny, maxy] envelope, so the
    // payload offset is exactly 8 + 32 = 40
    let payload = [1u8, 2, 3, 4, 5];
    let blob = gpkg_blob(0b0000_0010, 32, &payload);
    assert_eq!(blob.len(), 40 + payload.len());
    assert_eq!(gpkg_geometry_to_wkb(&blob), payload.to_vec());
}

#[test]
fn no_envelope_payload_starts_at_eight() {
    let payload = [9u8, 8, 7];
    let blob = gpkg_blob(0b0000_0000, 0, &payload);
    assert_eq!(blob.len(), 8 + payload.len());
    assert_eq!(gpkg_geometry_to_wkb(&blob), payload.to_vec());
}

#[test]
fn xyz_and_xym_envelopes_are_forty_eight_bytes() {
    let payload = [0xABu8; 4];
    for flags in [0b0000_0100u8, 0b0000_0110] {
        let blob = gpkg_blob(flags, 48, &payload);
        assert_eq!(gpkg_geometry_to_wkb(&blob), payload.to_vec());
    }
}

#[test]
fn xyzm_envelope_is_sixty_four_bytes() {
    let payload = [0x5Au8; 2];
    let blob = gpkg_blob(0b0000_1000, 64, &payload);
    assert_eq!(gpkg_geometry_to_wkb(&blob), payload.to_vec());
}

#[test]
fn invalid_envelope_flags_yield_empty_payload() {
    // envelope indicator 5 (0b1010) is reserved: the result is empty
    let blob = gpkg_blob(0b0000_1010, 0, &[1, 2, 3]);
    assert_eq!(gpkg_geometry_to_wkb(&blob), Vec::<u8>::new());
}

#[test]
fn point_feature_encodes_as_standard_wkb() {
    // POINT(1 2), little-endian: byte order 1, type 1, then the two doubles
    let feature = GeoFeature {
        geometry: Some(geojson::Geometry::new_point([1.0, 2.0])),
        properties: vec![],
    };
    let mut converter = WkbConverter::new();
    let bytes = converter.convert(&feature).expect("a point must convert");

    let mut expected = vec![0x01, 0x01, 0x00, 0x00, 0x00];
    expected.extend_from_slice(&1.0f64.to_le_bytes());
    expected.extend_from_slice(&2.0f64.to_le_bytes());
    assert_eq!(bytes, expected);
}

#[test]
fn short_position_is_corrupt_not_a_panic() {
    // geojson parses a point with no coordinates; the codec must refuse it
    let feature = GeoFeature {
        geometry: Some(geojson::Geometry::new_point(Vec::<f64>::new())),
        properties: vec![],
    };
    let mut converter = WkbConverter::new();
    match converter.convert(&feature) {
        Err(st_read_multi::ScanError::CorruptGeometry(_)) => {},
        _ => panic!("a short position must be refused as corrupt"),
    }
}

#[test]
fn short_position_inside_a_collection_is_found() {
    let inner = geojson::Geometry::new_line_string(vec![vec![1.0, 2.0], vec![3.0]]);
    let feature = GeoFeature {
        geometry: Some(geojson::Geometry::new_geometry_collection(vec![inner])),
        properties: vec![],
    };
    let mut converter = WkbConverter::new();
    match converter.convert(&feature) {
        Err(st_read_multi::ScanError::CorruptGeometry(_)) => {},
        _ => panic!("a nested short position must be refused as corrupt"),
    }
}

#[test]
fn feature_without_geometry_is_refused() {
    let feature = GeoFeature { geometry: None, properties: vec![] };
    let mut converter = WkbConverter::new();
    match converter.convert(&feature) {
        Err(st_read_multi::ScanError::MissingGeometry) => {},
        _ => panic!("a missing geometry must be refused, not emitted as NULL"),
    }
}

#[test]
fn unconvertible_shape_is_corrupt_geometry() {
    // a triangle-strip multipatch has no geo-types form
    let patch = shapefile::Patch::TriangleStrip(vec![
        shapefile::PointZ::new(0.0, 0.0, 0.0, 0.0),
        shapefile::PointZ::new(1.0, 0.0, 0.0, 0.0),
        shapefile::PointZ::new(0.0, 1.0, 0.0, 0.0),
    ]);
    let shape = shapefile::Shape::Multipatch(shapefile::Multipatch::new(patch));
    let record = st_read_multi::Record { entries: vec![] };
    let result = st_read_multi::ShapefileDataSource::new(
        &vec![],
        vec![(shape, record)],
        "points.shp".to_string(),
        None,
    );
    match result {
        Err(st_read_multi::ScanError::CorruptGeometry(_)) => {},
        _ => panic!("an unconvertible shape must abort the scan"),
    }
}

#[test]
fn null_shape_becomes_absent_geometry() {
    let record = st_read_multi::Record { entries: vec![] };
    let source = st_read_multi::ShapefileDataSource::new(
        &vec![],
        vec![(shapefile::Shape::NullShape, record)],
        "points.shp".to_string(),
        None,
    )
    .expect("a null shape is data, not an error");
    assert_eq!(source.rows.len(), 1);
    assert!(source.rows[0].geometry.is_none());
}

#[test]
fn point_shape_becomes_wkb_geometry() {
    let record = st_read_multi::Record { entries: vec![] };
    let source = st_read_multi::ShapefileDataSource::new(
        &vec![],
        vec![(shapefile::Shape::Point(shapefile::Point::new(1.0, 2.0)), record)],
        "points.shp".to_string(),
        None,
    )
    .expect("a point must convert");
    let bytes = source.rows[0].geometry.as_ref().expect("a point has geometry");
    let mut expected = vec![0x01, 0x01, 0x00, 0x00, 0x00];
    expected.extend_from_slice(&1.0f64.to_le_bytes());
    expected.extend_from_slice(&2.0f64.to_le_bytes());
    assert_eq!(bytes, &expected);
}

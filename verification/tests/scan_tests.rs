use st_read_multi::bind_geojson;
use st_read_multi::output_columns;
use st_read_multi::scan_step;
use st_read_multi::CellValue;
use st_read_multi::ColumnType;
use st_read_multi::GeoFeature;
use st_read_multi::GeoJsonDataSource;
use st_read_multi::Prop;
use st_read_multi::PropValue;
use st_read_multi::ScanSource;
use st_read_multi::StReadMultiBindData;
use st_read_multi::StReadMultiInitData;
use st_read_multi::VECTOR_SIZE;

fn text_row(values: &[&str]) -> Vec<CellValue> {
    values.iter().map(|v| CellValue::Text(v.to_string())).collect()
}

fn source(filename: &str, rows: Vec<Vec<CellValue>>) -> ScanSource {
    ScanSource { filename: filename.to_string(), layer: None, rows }
}

fn cell_text(cell: &CellValue) -> &str {
    match cell {
        CellValue::Text(s) => s.as_str(),
        _ => panic!("expected a text cell"),
    }
}

#[test]
fn batches_cover_stream_in_order() {
    // rows read across consecutive non-empty batches sum to the total row
    // count, in source order then in-source order
    let sources = vec![
        source("a", vec![text_row(&["a0"]), text_row(&["a1"]), text_row(&["a2"])]),
        source("b", vec![text_row(&["b0"]), text_row(&["b1"])]),
    ];
    let mut cursor = StReadMultiInitData::new();
    let mut seen: Vec<String> = Vec::new();
    let mut total = 0;
    loop {
        let batch = scan_step(&sources, &mut cursor, 2);
        assert!(batch.len() <= 2);
        if batch.is_empty() {
            break;
        }
        total += batch.len();
        for row in &batch {
            assert_eq!(row.len(), 2); // the value cell plus the filename cell
            seen.push(cell_text(&row[0]).to_string());
        }
    }
    assert_eq!(total, 5);
    assert_eq!(seen, vec!["a0", "a1", "a2", "b0", "b1"]);
}

#[test]
fn batch_capacity_bounds() {
    // every non-terminal batch holds between 1 and the capacity; only the
    // terminal batch is empty
    let sources = vec![source("a", (0..5).map(|i| text_row(&[&format!("r{i}")])).collect())];
    let mut cursor = StReadMultiInitData::new();
    let sizes: Vec<usize> = std::iter::from_fn(|| {
        let batch = scan_step(&sources, &mut cursor, 2);
        if batch.is_empty() { None } else { Some(batch.len()) }
    })
    .collect();
    assert_eq!(sizes, vec![2, 2, 1]);
    assert!(sizes.iter().all(|s| 1 <= *s && *s <= 2));
    assert!(VECTOR_SIZE >= 2);
}

#[test]
fn terminal_state_is_idempotent() {
    let sources = vec![source("a", vec![text_row(&["a0"])])];
    let mut cursor = StReadMultiInitData::new();
    let first = scan_step(&sources, &mut cursor, VECTOR_SIZE);
    assert_eq!(first.len(), 1);
    for _ in 0..4 {
        let again = scan_step(&sources, &mut cursor, VECTOR_SIZE);
        assert!(again.is_empty());
        assert_eq!(cursor.cur_source_idx, sources.len());
        assert_eq!(cursor.offset, 0);
    }
}

#[test]
fn empty_interior_source_never_truncates() {
    // three sources, the middle one empty: one logical scan still yields
    // every row of the first and third sources
    let sources = vec![
        source("a", vec![text_row(&["a0"]), text_row(&["a1"])]),
        source("b", vec![]),
        source("c", vec![text_row(&["c0"])]),
    ];
    let mut cursor = StReadMultiInitData::new();
    let mut seen: Vec<String> = Vec::new();
    loop {
        let batch = scan_step(&sources, &mut cursor, VECTOR_SIZE);
        if batch.is_empty() {
            break;
        }
        for row in &batch {
            seen.push(cell_text(&row[0]).to_string());
        }
    }
    assert_eq!(seen, vec!["a0", "a1", "c0"]);
}

#[test]
fn empty_leading_and_trailing_sources() {
    let sources = vec![
        source("a", vec![]),
        source("b", vec![text_row(&["b0"])]),
        source("c", vec![]),
    ];
    let mut cursor = StReadMultiInitData::new();
    let first = scan_step(&sources, &mut cursor, VECTOR_SIZE);
    assert_eq!(first.len(), 1);
    assert_eq!(cell_text(&first[0][0]), "b0");
    let last = scan_step(&sources, &mut cursor, VECTOR_SIZE);
    assert!(last.is_empty());
}

fn point_feature(x: f64, y: f64, props: Vec<(&str, PropValue)>) -> GeoFeature {
    GeoFeature {
        geometry: Some(geojson::Geometry::new_point([x, y])),
        properties: props
            .into_iter()
            .map(|(name, value)| Prop { name: name.to_string(), value })
            .collect(),
    }
}

#[test]
fn geojson_two_files_end_to_end() {
    // two feature collections with properties {val1: 1.5, val2: "a"} and
    // {val1: 2.5, val2: "b"}: one unified schema [val1: Double, val2:
    // Varchar], output columns [geometry, val1, val2, filename], two data
    // rows in file-then-feature order
    let file_a = GeoJsonDataSource {
        features: vec![point_feature(
            1.0,
            2.0,
            vec![
                ("val1", PropValue::Number(1.5f64.to_bits())),
                ("val2", PropValue::Text("a".to_string())),
            ],
        )],
        filename: "a.geojson".to_string(),
    };
    let file_b = GeoJsonDataSource {
        features: vec![point_feature(
            3.0,
            4.0,
            vec![
                ("val1", PropValue::Number(2.5f64.to_bits())),
                ("val2", PropValue::Text("b".to_string())),
            ],
        )],
        filename: "b.geojson".to_string(),
    };
    let bind = bind_geojson(vec![file_a, file_b]).expect("schemas must unify");
    assert_eq!(bind.column_specs.len(), 2);
    assert_eq!(&bind.column_specs[0].name, "val1");
    assert_eq!(bind.column_specs[0].column_type, ColumnType::Double);
    assert_eq!(&bind.column_specs[1].name, "val2");
    assert_eq!(bind.column_specs[1].column_type, ColumnType::Varchar);

    let sources = bind.scan_sources().expect("materialization must succeed");
    let bind_data = StReadMultiBindData::from(bind);
    let columns = output_columns(&bind_data);
    let names: Vec<&str> = columns.iter().map(|c| c.name.as_str()).collect();
    assert_eq!(names, vec!["geometry", "val1", "val2", "filename"]);
    assert_eq!(columns[0].column_type, ColumnType::Geometry);
    assert_eq!(columns[3].column_type, ColumnType::Varchar);

    let mut cursor = StReadMultiInitData::new();
    let mut rows: Vec<Vec<CellValue>> = Vec::new();
    loop {
        let batch = scan_step(&sources, &mut cursor, VECTOR_SIZE);
        if batch.is_empty() {
            break;
        }
        rows.extend(batch);
    }
    assert_eq!(rows.len(), 2);
    for row in &rows {
        assert_eq!(row.len(), 4);
        assert!(matches!(row[0], CellValue::Geometry(_)));
    }
    assert!(matches!(rows[0][1], CellValue::Double(bits) if f64::from_bits(bits) == 1.5));
    assert_eq!(cell_text(&rows[0][2]), "a");
    assert_eq!(cell_text(&rows[0][3]), "a.geojson");
    assert!(matches!(rows[1][1], CellValue::Double(bits) if f64::from_bits(bits) == 2.5));
    assert_eq!(cell_text(&rows[1][2]), "b");
    assert_eq!(cell_text(&rows[1][3]), "b.geojson");
}

#[test]
fn geojson_schema_order_does_not_matter() {
    // identical column sets in different property order still unify
    let file_a = GeoJsonDataSource {
        features: vec![point_feature(
            1.0,
            2.0,
            vec![
                ("val1", PropValue::Number(1.5f64.to_bits())),
                ("val2", PropValue::Text("a".to_string())),
            ],
        )],
        filename: "a.geojson".to_string(),
    };
    let file_b = GeoJsonDataSource {
        features: vec![point_feature(
            3.0,
            4.0,
            vec![
                ("val2", PropValue::Text("b".to_string())),
                ("val1", PropValue::Number(2.5f64.to_bits())),
            ],
        )],
        filename: "b.geojson".to_string(),
    };
    let bind = bind_geojson(vec![file_a, file_b]).expect("order must not matter");
    assert_eq!(&bind.column_specs[0].name, "val1");
    assert_eq!(&bind.column_specs[1].name, "val2");
}

#[test]
fn geojson_type_mismatch_names_the_file() {
    let file_a = GeoJsonDataSource {
        features: vec![point_feature(
            1.0,
            2.0,
            vec![("val1", PropValue::Number(1.5f64.to_bits()))],
        )],
        filename: "a.geojson".to_string(),
    };
    let file_b = GeoJsonDataSource {
        features: vec![point_feature(
            3.0,
            4.0,
            vec![("val1", PropValue::Text("oops".to_string()))],
        )],
        filename: "b.geojson".to_string(),
    };
    match bind_geojson(vec![file_a, file_b]) {
        Err(st_read_multi::ScanError::SchemaMismatch { filename, detail }) => {
            assert_eq!(filename, "b.geojson");
            match detail {
                st_read_multi::MismatchKind::ColumnType { index, name, expected, found } => {
                    assert_eq!(index, 0);
                    assert_eq!(name, "val1");
                    assert_eq!(expected, ColumnType::Double);
                    assert_eq!(found, ColumnType::Varchar);
                },
                other => panic!("wrong mismatch detail: {other:?}"),
            }
        },
        _ => panic!("a type mismatch must fail the bind"),
    }
}

#[test]
fn geojson_missing_geometry_is_fatal() {
    let file = GeoJsonDataSource {
        features: vec![GeoFeature { geometry: None, properties: vec![] }],
        filename: "a.geojson".to_string(),
    };
    let bind = bind_geojson(vec![file]).expect("bind sees no geometry problem yet");
    match bind.scan_sources() {
        Err(st_read_multi::ScanError::MissingGeometry) => {},
        _ => panic!("a GeoJSON feature without geometry must abort materialization"),
    }
}

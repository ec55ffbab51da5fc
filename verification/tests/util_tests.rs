use st_read_multi::classify_format;
use st_read_multi::expand_tilde_with;
use st_read_multi::infer_schema;
use st_read_multi::is_geojson;
use st_read_multi::is_gpkg;
use st_read_multi::parse_encoding_label;
use st_read_multi::sql_type_to_column_type;
use st_read_multi::validate_schema;
use st_read_multi::ColumnSpec;
use st_read_multi::ColumnType;
use st_read_multi::FormatKind;
use st_read_multi::GeoFeature;
use st_read_multi::Gpkg;
use st_read_multi::MismatchKind;
use st_read_multi::Prop;
use st_read_multi::PropValue;
use st_read_multi::ScanError;

fn spec(name: &str, column_type: ColumnType) -> ColumnSpec {
    ColumnSpec { name: name.to_string(), column_type }
}

#[test]
fn extensions_decide_the_format() {
    assert!(is_geojson("./data/points.geojson"));
    assert!(!is_geojson("./data/points.gpkg"));
    assert!(!is_geojson("geojson"));
    assert!(!is_geojson("./data/.geojson"));
    assert!(is_gpkg("a.gpkg"));
    assert!(!is_gpkg("a.gpkg/"));
    assert!(is_geojson("archive.tar.geojson"));
}

#[test]
fn classify_needs_at_least_one_file_and_one_format() {
    assert!(matches!(classify_format(&vec![]), Err(ScanError::Discovery)));
    let geo = vec!["a.geojson".to_string(), "b.geojson".to_string()];
    assert!(matches!(classify_format(&geo), Ok(FormatKind::GeoJson)));
    let gpkg = vec!["a.gpkg".to_string()];
    assert!(matches!(classify_format(&gpkg), Ok(FormatKind::Gpkg)));
    let mixed = vec!["a.geojson".to_string(), "b.gpkg".to_string()];
    assert!(matches!(classify_format(&mixed), Err(ScanError::FormatViolation(_))));
    let unknown = vec!["a.shp".to_string()];
    assert!(matches!(classify_format(&unknown), Err(ScanError::FormatViolation(_))));
}

#[test]
fn tilde_expansion_needs_home_and_tilde() {
    assert_eq!(expand_tilde_with("~/data/x.gpkg", Some("/home/u")), "/home/u/data/x.gpkg");
    assert_eq!(expand_tilde_with("~/data/x.gpkg", None), "~/data/x.gpkg");
    assert_eq!(expand_tilde_with("/abs/x.gpkg", Some("/home/u")), "/abs/x.gpkg");
    assert_eq!(expand_tilde_with("", Some("/home/u")), "");
}

#[test]
fn validate_schema_accepts_equal_schemas() {
    let base = vec![spec("val1", ColumnType::Double), spec("val2", ColumnType::Varchar)];
    let same = vec![spec("val1", ColumnType::Double), spec("val2", ColumnType::Varchar)];
    assert!(validate_schema(&base, &same, "b.geojson").is_ok());
}

#[test]
fn validate_schema_reports_the_first_difference() {
    let base = vec![spec("val1", ColumnType::Double), spec("val2", ColumnType::Varchar)];

    let short = vec![spec("val1", ColumnType::Double)];
    match validate_schema(&base, &short, "s.geojson") {
        Err(ScanError::SchemaMismatch { filename, detail }) => {
            assert_eq!(filename, "s.geojson");
            assert!(
                matches!(detail, MismatchKind::ColumnCount { expected: 2, found: 1 })
            );
        },
        _ => panic!("a column count mismatch must fail"),
    }

    let renamed = vec![spec("val1", ColumnType::Double), spec("val3", ColumnType::Varchar)];
    match validate_schema(&base, &renamed, "n.geojson") {
        Err(ScanError::SchemaMismatch { filename, detail }) => {
            assert_eq!(filename, "n.geojson");
            match detail {
                MismatchKind::ColumnName { index, expected, found } => {
                    assert_eq!(index, 1);
                    assert_eq!(expected, "val2");
                    assert_eq!(found, "val3");
                },
                other => panic!("wrong detail: {other:?}"),
            }
        },
        _ => panic!("a column name mismatch must fail"),
    }

    let retyped = vec![spec("val1", ColumnType::Integer), spec("val2", ColumnType::Varchar)];
    match validate_schema(&base, &retyped, "t.geojson") {
        Err(ScanError::SchemaMismatch { filename, detail }) => {
            assert_eq!(filename, "t.geojson");
            match detail {
                MismatchKind::ColumnType { index, name, expected, found } => {
                    assert_eq!(index, 0);
                    assert_eq!(name, "val1");
                    assert_eq!(expected, ColumnType::Double);
                    assert_eq!(found, ColumnType::Integer);
                },
                other => panic!("wrong detail: {other:?}"),
            }
        },
        _ => panic!("a column type mismatch must fail"),
    }
}

#[test]
fn sql_types_map_case_insensitively() {
    assert!(matches!(sql_type_to_column_type("integer"), Ok(ColumnType::Integer)));
    assert!(matches!(sql_type_to_column_type("TINYINT"), Ok(ColumnType::Integer)));
    assert!(matches!(sql_type_to_column_type("Double"), Ok(ColumnType::Double)));
    assert!(matches!(sql_type_to_column_type("real"), Ok(ColumnType::Double)));
    assert!(matches!(sql_type_to_column_type("text"), Ok(ColumnType::Varchar)));
    assert!(matches!(sql_type_to_column_type("boolean"), Ok(ColumnType::Boolean)));
    assert!(matches!(sql_type_to_column_type("MultiPolygon"), Ok(ColumnType::Geometry)));
    match sql_type_to_column_type("BLOB") {
        Err(ScanError::UnsupportedType(u)) => assert_eq!(u, "BLOB"),
        _ => panic!("an unknown declared type must be refused"),
    }
}

#[test]
fn gpkg_layer_selection_demands_the_layer() {
    let layers = vec!["points".to_string(), "lines".to_string()];
    let all = Gpkg::new("a.gpkg".to_string(), layers.clone(), None).unwrap();
    assert_eq!(all.layers, layers);

    let one = Gpkg::new("a.gpkg".to_string(), layers.clone(), Some("lines".to_string())).unwrap();
    assert_eq!(one.layers, vec!["lines".to_string()]);

    match Gpkg::new("a.gpkg".to_string(), layers, Some("missing".to_string())) {
        Err(ScanError::NoSuchLayer { layer, filename }) => {
            assert_eq!(layer, "missing");
            assert_eq!(filename, "a.gpkg");
        },
        _ => panic!("a missing layer must be refused"),
    }
}

fn feature(props: Vec<(&str, PropValue)>) -> GeoFeature {
    GeoFeature {
        geometry: None,
        properties: props
            .into_iter()
            .map(|(name, value)| Prop { name: name.to_string(), value })
            .collect(),
    }
}

#[test]
fn inference_takes_the_first_non_null_occurrence() {
    let features = vec![
        feature(vec![("a", PropValue::Null), ("b", PropValue::Text("x".to_string()))]),
        feature(vec![("a", PropValue::Boolean(true)), ("b", PropValue::Null)]),
        feature(vec![("a", PropValue::Number(1.0f64.to_bits()))]),
    ];
    let specs = infer_schema(&features).unwrap();
    assert_eq!(specs.len(), 2);
    assert_eq!(&specs[0].name, "a");
    assert_eq!(specs[0].column_type, ColumnType::Boolean);
    assert_eq!(&specs[1].name, "b");
    assert_eq!(specs[1].column_type, ColumnType::Varchar);
}

#[test]
fn inference_sorts_names_and_skips_all_null_columns() {
    let features = vec![feature(vec![
        ("zeta", PropValue::Number(3.0f64.to_bits())),
        ("alpha", PropValue::Text("x".to_string())),
        ("ghost", PropValue::Null),
    ])];
    let specs = infer_schema(&features).unwrap();
    assert_eq!(specs.len(), 2);
    assert_eq!(&specs[0].name, "alpha");
    assert_eq!(&specs[1].name, "zeta");
}

#[test]
fn inference_refuses_arrays_and_objects() {
    let features = vec![feature(vec![("a", PropValue::Array)])];
    match infer_schema(&features) {
        Err(ScanError::UnsupportedType(name)) => assert_eq!(name, "a"),
        _ => panic!("an array value has no column type"),
    }
}

#[test]
fn inference_samples_only_the_first_hundred_features() {
    let mut features: Vec<GeoFeature> = (0..100).map(|_| feature(vec![])).collect();
    features.push(feature(vec![("late", PropValue::Boolean(true))]));
    let specs = infer_schema(&features).unwrap();
    assert!(specs.is_empty());
}

#[test]
fn encoding_labels_are_trimmed_and_case_folded() {
    assert_eq!(parse_encoding_label("UTF-8").unwrap().name, "UTF-8");
    assert_eq!(parse_encoding_label("65001").unwrap().name, "UTF-8");
    assert_eq!(parse_encoding_label(" cp932 \n").unwrap().name, "Shift_JIS");
    assert_eq!(parse_encoding_label("sjis").unwrap().name, "Shift_JIS");
    assert_eq!(parse_encoding_label("\u{feff}GBK").unwrap().name, "GBK");
    assert_eq!(parse_encoding_label("euc-kr").unwrap().name, "EUC-KR");
    assert_eq!(parse_encoding_label("big-5").unwrap().name, "Big5");
    assert_eq!(parse_encoding_label("8859-5").unwrap().name, "ISO-8859-5");
    assert_eq!(parse_encoding_label("iso-8859-15").unwrap().name, "ISO-8859-15");
    assert_eq!(parse_encoding_label("88591").unwrap().name, "windows-1252");
    assert_eq!(parse_encoding_label("iso-8859-9").unwrap().name, "windows-1254");
    assert_eq!(parse_encoding_label("ansi 1251").unwrap().name, "windows-1251");
    assert_eq!(parse_encoding_label("\u{a0}utf-8\u{3000}").unwrap().name, "UTF-8");
    assert!(parse_encoding_label("koi8-r").is_none());
    assert!(parse_encoding_label("").is_none());
}

use st_read_multi::CellValue;
use st_read_multi::ColumnType;
use st_read_multi::DbfField;
use st_read_multi::DbfFieldType;
use st_read_multi::Record;
use st_read_multi::RecordEntry;
use st_read_multi::ShapefileDataSource;
use st_read_multi::TableColumn;

fn table_column(name: &str, declared_type: &str) -> TableColumn {
    TableColumn { name: name.to_string(), declared_type: declared_type.to_string() }
}

#[test]
fn gpkg_test_get_column_specs() -> Result<(), st_read_multi::ScanError> {
    let gpkg = st_read_multi::Gpkg::new(
        "./test/data/points.gpkg".to_string(),
        vec!["points".to_string()],
        None,
    )?;
    // the column catalogue of the "points" layer, as the container reports it
    let cols = vec![
        table_column("fid", "INTEGER"),
        table_column("geom", "POINT"),
        table_column("val1", "MEDIUMINT"),
        table_column("val2", "TEXT"),
    ];
    let layers = st_read_multi::column_specs_from_table_info(&cols)?;
    let sources = gpkg.list_data_sources(vec![layers.clone()]);
    assert_eq!(sources.len(), 1);
    assert_eq!(sources[0].filename, "./test/data/points.gpkg");
    assert_eq!(sources[0].layer_name, "points");

    assert_eq!(layers.len(), 3);
    assert_eq!(&layers[0].name, "geom");
    assert_eq!(layers[0].column_type, ColumnType::Geometry);
    assert_eq!(&layers[1].name, "val1");
    assert_eq!(layers[1].column_type, ColumnType::Integer);
    assert_eq!(&layers[2].name, "val2");
    assert_eq!(layers[2].column_type, ColumnType::Varchar);

    Ok(())
}

#[test]
fn gpkg_specs_come_out_in_canonical_order() -> Result<(), st_read_multi::ScanError> {
    // the catalogue arrives in table order; the schema is name-sorted
    let cols = vec![
        table_column("val2", "TEXT"),
        table_column("fid", "INTEGER"),
        table_column("geom", "POINT"),
        table_column("val1", "INTEGER"),
    ];
    let specs = st_read_multi::column_specs_from_table_info(&cols)?;
    let names: Vec<&str> = specs.iter().map(|s| s.name.as_str()).collect();
    assert_eq!(names, vec!["geom", "val1", "val2"]);
    Ok(())
}

#[test]
fn gpkg_table_order_does_not_matter_for_unification() -> Result<(), st_read_multi::ScanError> {
    // the same columns in different table order still unify
    let first = st_read_multi::column_specs_from_table_info(&vec![
        table_column("geom", "POINT"),
        table_column("val1", "INTEGER"),
    ])?;
    let second = st_read_multi::column_specs_from_table_info(&vec![
        table_column("val1", "INTEGER"),
        table_column("geom", "POINT"),
    ])?;
    let sources = vec![
        st_read_multi::GpkgDataSource {
            filename: "a.gpkg".to_string(),
            layer_name: "points".to_string(),
            column_specs: first,
        },
        st_read_multi::GpkgDataSource {
            filename: "b.gpkg".to_string(),
            layer_name: "points".to_string(),
            column_specs: second,
        },
    ];
    let bind = st_read_multi::bind_gpkg(sources)?;
    assert_eq!(bind.column_specs.len(), 2);
    Ok(())
}

#[test]
fn gpkg_output_declares_geometry_first() -> Result<(), st_read_multi::ScanError> {
    // "alpha" sorts before "geom", but the geometry column leads the output
    let specs = st_read_multi::column_specs_from_table_info(&vec![
        table_column("alpha", "INTEGER"),
        table_column("geom", "POINT"),
    ])?;
    let names: Vec<String> = specs.iter().map(|s| s.name.clone()).collect();
    assert_eq!(names, vec!["alpha", "geom"]);
    let bind = st_read_multi::bind_gpkg(vec![st_read_multi::GpkgDataSource {
        filename: "a.gpkg".to_string(),
        layer_name: "points".to_string(),
        column_specs: specs,
    }])?;
    let bind_data = st_read_multi::StReadMultiBindData::from(bind);
    let columns = st_read_multi::output_columns(&bind_data);
    let declared: Vec<&str> = columns.iter().map(|c| c.name.as_str()).collect();
    assert_eq!(declared, vec!["geom", "alpha", "filename", "layer"]);
    assert_eq!(columns[0].column_type, ColumnType::Geometry);
    Ok(())
}

fn points_fields() -> Vec<DbfField> {
    vec![
        DbfField { name: "属性1".to_string(), field_type: DbfFieldType::Numeric },
        DbfField { name: "属性2".to_string(), field_type: DbfFieldType::Character },
    ]
}

fn points_shapes() -> Vec<(shapefile::Shape, Record)> {
    let record_a = Record {
        entries: vec![
            RecordEntry { name: "属性1".to_string(), value: CellValue::Double(1.0f64.to_bits()) },
            RecordEntry { name: "属性2".to_string(), value: CellValue::Text("値a".to_string()) },
        ],
    };
    let record_b = Record {
        entries: vec![
            RecordEntry { name: "属性1".to_string(), value: CellValue::Double(2.0f64.to_bits()) },
            RecordEntry { name: "属性2".to_string(), value: CellValue::Text("値b".to_string()) },
        ],
    };
    vec![
        (shapefile::Shape::Point(shapefile::Point::new(139.69, 35.68)), record_a),
        (shapefile::Shape::Point(shapefile::Point::new(135.50, 34.69)), record_b),
    ]
}

fn row_character(source: &ShapefileDataSource, row_index: usize, field_name: &str) -> Option<String> {
    match source.rows.get(row_index)?.record.get(field_name)? {
        CellValue::Text(value) => Some(value.clone()),
        _ => None,
    }
}

#[test]
fn shapefile_test_get_column_specs() -> Result<(), st_read_multi::ScanError> {
    let source = ShapefileDataSource::new(
        &points_fields(),
        points_shapes(),
        "./test/data/shapefile_utf8/points.shp".to_string(),
        None,
    )?;
    let specs = source.get_column_specs();

    assert_eq!(specs.len(), 2);
    assert_eq!(specs[0].column_type, ColumnType::Double);
    assert_eq!(&specs[0].name, "属性1");
    assert_eq!(specs[1].column_type, ColumnType::Varchar);
    assert_eq!(&specs[1].name, "属性2");

    Ok(())
}

#[test]
fn shapefile_test_get_column_specs_cp932() -> Result<(), st_read_multi::ScanError> {
    let source = ShapefileDataSource::new(
        &points_fields(),
        points_shapes(),
        "./test/data/shapefile_cp932/points.shp".to_string(),
        None,
    )?;
    let specs = source.get_column_specs();

    assert_eq!(specs.len(), 2);
    assert_eq!(specs[0].column_type, ColumnType::Double);
    assert_eq!(&specs[0].name, "属性1");
    assert_eq!(specs[1].column_type, ColumnType::Varchar);
    assert_eq!(&specs[1].name, "属性2");

    Ok(())
}

#[test]
fn tests_test_get_column_specs() -> Result<(), st_read_multi::ScanError> {
    let source = ShapefileDataSource::new(
        &points_fields(),
        points_shapes(),
        "./test/data/shapefile_utf8/points.shp".to_string(),
        None,
    )?;
    let specs = &source.column_specs;

    assert_eq!(specs.len(), 2);
    assert_eq!(specs[0].column_type, ColumnType::Double);
    assert_eq!(&specs[0].name, "属性1");
    assert_eq!(specs[1].column_type, ColumnType::Varchar);
    assert_eq!(&specs[1].name, "属性2");
    assert_eq!(row_character(&source, 0, "属性2").as_deref(), Some("値a"));
    assert_eq!(row_character(&source, 1, "属性2").as_deref(), Some("値b"));

    Ok(())
}

#[test]
fn tests_test_get_column_specs_cp932() -> Result<(), st_read_multi::ScanError> {
    let source = ShapefileDataSource::new(
        &points_fields(),
        points_shapes(),
        "./test/data/shapefile_cp932_wo_cpg/points.shp".to_string(),
        None,
    )?;
    let specs = &source.column_specs;

    assert_eq!(specs.len(), 2);
    assert_eq!(specs[0].column_type, ColumnType::Double);
    assert_eq!(&specs[0].name, "属性1");
    assert_eq!(specs[1].column_type, ColumnType::Varchar);
    assert_eq!(&specs[1].name, "属性2");
    assert_eq!(row_character(&source, 0, "属性2").as_deref(), Some("値a"));
    assert_eq!(row_character(&source, 1, "属性2").as_deref(), Some("値b"));

    Ok(())
}

#[test]
fn test_get_column_specs_cp932_with_cpg() -> Result<(), st_read_multi::ScanError> {
    // the sidecar hint of this triple reads CP932
    let inferred = st_read_multi::parse_encoding_label("CP932");
    let source = ShapefileDataSource::new(
        &points_fields(),
        points_shapes(),
        "./test/data/shapefile_cp932_w_cpg/points.shp".to_string(),
        inferred.map(|v| v.name),
    )?;
    let specs = &source.column_specs;

    assert_eq!(source.inferred_cpg_encoding.as_deref(), Some("Shift_JIS"));
    assert_eq!(specs.len(), 2);
    assert_eq!(specs[0].column_type, ColumnType::Double);
    assert_eq!(&specs[0].name, "属性1");
    assert_eq!(specs[1].column_type, ColumnType::Varchar);
    assert_eq!(&specs[1].name, "属性2");
    assert_eq!(row_character(&source, 0, "属性2").as_deref(), Some("値a"));
    assert_eq!(row_character(&source, 1, "属性2").as_deref(), Some("値b"));

    Ok(())
}

//! A multi-source geospatial scan engine: unifies the column schemas of many
//! GeoJSON / GeoPackage / Shapefile sources and streams their rows as
//! fixed-capacity batches with geometries normalized to Well-Known Binary.

mod encoding;
mod geojson;
mod gpkg;
mod scan;
mod shapefile;
pub mod text;
mod types;
mod utils;
mod wkb;

pub use encoding::parse_encoding_label;
pub use encoding::EncodingChoice;
pub use encoding::InferredEncoding;
pub use geojson::GeoFeature;
pub use geojson::GeoJsonDataSource;
pub use geojson::Prop;
pub use geojson::PropValue;
pub use geojson::infer_schema;
pub use geojson::bind_geojson;
pub use geojson::GeoJsonBindData;
pub use gpkg::bind_gpkg;
pub use gpkg::first_geom;
pub use gpkg::geometry_first;
pub use gpkg::column_specs_from_table_info;
pub use gpkg::gpkg_geometry_to_wkb;
pub use gpkg::sql_type_to_column_type;
pub use gpkg::Gpkg;
pub use gpkg::GpkgBindData;
pub use gpkg::GpkgDataSource;
pub use gpkg::TableColumn;
pub use scan::scan_step;
pub use shapefile::DbfField;
pub use shapefile::DbfFieldType;
pub use shapefile::Record;
pub use shapefile::RecordEntry;
pub use shapefile::ShapefileDataSource;
pub use shapefile::ShapefileRow;
pub use scan::ScanSource;
pub use scan::StReadMultiInitData;
pub use types::CellValue;
pub use types::ColumnSpec;
pub use types::ColumnType;
pub use types::MismatchKind;
pub use types::Row;
pub use types::ScanError;
pub use utils::expand_tilde_with;
pub use utils::is_geojson;
pub use utils::is_gpkg;
pub use utils::validate_schema;
pub use wkb::WkbConverter;

use gpkg::lemma_first_geom;
use utils::extension_of;

use vstd::prelude::*;

verus! {

/// Capacity of one output batch: the host asks for at most this many rows per step.
pub const VECTOR_SIZE: usize = 2048;

/// Which format family one scan reads: the two are never mixed.
#[derive(Clone, Copy, Debug, PartialEq, Eq, Structural)]
pub enum FormatKind {
    GeoJson,
    Gpkg,
}

/// Every path carries exactly this extension.
pub open spec fn all_ext(paths: Seq<String>, ext: Seq<char>) -> bool {
    forall|i: int| 0 <= i < paths.len() ==> #[trigger] extension_of(paths[i]@) == Some(ext)
}

/// Decides whether every path carries the given extension.
fn check_all_ext(paths: &Vec<String>, ext: &str) -> (r: bool)
    ensures
        r == all_ext(paths@, ext@),
{
    let mut i: usize = 0;
    while i < paths.len()
        invariant
            i <= paths@.len(),
            forall|j: int| 0 <= j < i ==> #[trigger] extension_of(paths@[j]@) == Some(ext@),
        decreases paths@.len() - i,
    {
        if !utils::has_extension_is(paths[i].as_str(), ext) {
            proof {
                assert(extension_of(paths@[i as int]@) != Some(ext@));
            }
            return false;
        }
        i = i + 1;
    }
    true
}

/// Classifies a discovered path list: all GeoJSON, or all GeoPackage; an
/// empty list means discovery found nothing, and a mix is refused.
pub fn classify_format(paths: &Vec<String>) -> (r: Result<FormatKind, ScanError>)
    ensures
        paths@.len() == 0 ==> r == Err::<FormatKind, ScanError>(ScanError::Discovery),
        paths@.len() > 0 && all_ext(paths@, "geojson"@) ==> r == Ok::<FormatKind, ScanError>(
            FormatKind::GeoJson,
        ),
        paths@.len() > 0 && !all_ext(paths@, "geojson"@) && all_ext(paths@, "gpkg"@) ==> r == Ok::<
            FormatKind,
            ScanError,
        >(FormatKind::Gpkg),
        paths@.len() > 0 && !all_ext(paths@, "geojson"@) && !all_ext(paths@, "gpkg"@) ==> r matches
            Err(ScanError::FormatViolation(_)),
{
    if paths.len() == 0 {
        return Err(ScanError::Discovery);
    }
    if check_all_ext(paths, "geojson") {
        return Ok(FormatKind::GeoJson);
    }
    if check_all_ext(paths, "gpkg") {
        return Ok(FormatKind::Gpkg);
    }
    Err(
        ScanError::FormatViolation(
            String::from_str("every file must have the extension '.geojson' or '.gpkg'"),
        ),
    )
}

/// The bind-time product of a whole scan: one variant per format family.
pub enum StReadMultiBindData {
    GeoJson(GeoJsonBindData),
    Gpkg(GpkgBindData),
}

impl From<GeoJsonBindData> for StReadMultiBindData {
    fn from(value: GeoJsonBindData) -> (r: Self) {
        StReadMultiBindData::GeoJson(value)
    }
}

impl vstd::std_specs::convert::FromSpecImpl<GeoJsonBindData> for StReadMultiBindData {
    open spec fn obeys_from_spec() -> bool {
        true
    }

    open spec fn from_spec(v: GeoJsonBindData) -> StReadMultiBindData {
        StReadMultiBindData::GeoJson(v)
    }
}

impl From<GpkgBindData> for StReadMultiBindData {
    fn from(value: GpkgBindData) -> (r: Self) {
        StReadMultiBindData::Gpkg(value)
    }
}

impl vstd::std_specs::convert::FromSpecImpl<GpkgBindData> for StReadMultiBindData {
    open spec fn obeys_from_spec() -> bool {
        true
    }

    open spec fn from_spec(v: GpkgBindData) -> StReadMultiBindData {
        StReadMultiBindData::Gpkg(v)
    }
}

/// The declared output columns of a bound scan: for GeoJSON, a synthetic
/// geometry column first, then the unified schema, then the filename; for
/// GeoPackage, the schema's geometry column pulled to the front, the rest
/// of the unified schema in its canonical order, then the filename and
/// layer metadata columns.
pub fn output_columns(bind: &StReadMultiBindData) -> (r: Vec<ColumnSpec>)
    ensures
        match bind {
            StReadMultiBindData::GeoJson(b) => {
                &&& r@.len() == b.column_specs@.len() + 2
                &&& r@[0].name@ == "geometry"@ && r@[0].column_type == ColumnType::Geometry
                &&& forall|j: int|
                    0 <= j < b.column_specs@.len() ==> r@[j + 1] == b.column_specs@[j]
                &&& r@.last().name@ == "filename"@ && r@.last().column_type == ColumnType::Varchar
            },
            StReadMultiBindData::Gpkg(b) => {
                &&& r@.len() == b.column_specs@.len() + 2
                &&& (first_geom(b.column_specs@) matches Some(g) ==> {
                    &&& r@[0] == b.column_specs@[g]
                    &&& r@[0].column_type == ColumnType::Geometry
                    &&& forall|j: int| 0 <= j < g ==> r@[j + 1] == b.column_specs@[j]
                    &&& forall|j: int|
                        g < j < b.column_specs@.len() ==> r@[j] == b.column_specs@[j]
                })
                &&& (first_geom(b.column_specs@) is None ==> forall|j: int|
                    0 <= j < b.column_specs@.len() ==> r@[j] == b.column_specs@[j])
                &&& r@[r@.len() - 2].name@ == "filename"@ && r@[r@.len() - 2].column_type
                    == ColumnType::Varchar
                &&& r@.last().name@ == "layer"@ && r@.last().column_type == ColumnType::Varchar
            },
        },
{
    let mut out: Vec<ColumnSpec> = Vec::new();
    match bind {
        StReadMultiBindData::GeoJson(b) => {
            out.push(
                ColumnSpec {
                    name: String::from_str("geometry"),
                    column_type: ColumnType::Geometry,
                },
            );
            let mut j: usize = 0;
            while j < b.column_specs.len()
                invariant
                    j <= b.column_specs@.len(),
                    out@.len() == j + 1,
                    out@[0].name@ == "geometry"@ && out@[0].column_type == ColumnType::Geometry,
                    forall|m: int| 0 <= m < j ==> out@[m + 1] == b.column_specs@[m],
                decreases b.column_specs@.len() - j,
            {
                out.push(b.column_specs[j].clone());
                j = j + 1;
            }
            out.push(
                ColumnSpec {
                    name: String::from_str("filename"),
                    column_type: ColumnType::Varchar,
                },
            );
        },
        StReadMultiBindData::Gpkg(b) => {
            proof {
                lemma_first_geom(b.column_specs@);
            }
            out = geometry_first(&b.column_specs);
            out.push(
                ColumnSpec {
                    name: String::from_str("filename"),
                    column_type: ColumnType::Varchar,
                },
            );
            out.push(ColumnSpec { name: String::from_str("layer"), column_type: ColumnType::Varchar });
        },
    }
    out
}

} // verus!

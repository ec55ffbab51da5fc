use vstd::prelude::*;

use crate::scan::ScanSource;
use crate::text::str_eq;
use crate::text::str_eq_upper;
use crate::types::schema_lookup;
use crate::types::schema_sorted;
use crate::types::schemas_equal;
use crate::types::ColumnSpec;
use crate::types::ColumnType;
use crate::types::Row;
use crate::types::ScanError;
use crate::utils::validate_schema;

verus! {

/// The envelope bytes that a GeoPackage geometry header announces: the
/// three envelope-contents bits of the flags byte select none, XY, XYZ,
/// XYM or XYZM bounds; any other pattern is invalid.
pub open spec fn envelope_size(flags: u8) -> Option<int> {
    let code = (flags as int / 2) % 8;
    if code == 0 {
        Some(0)
    } else if code == 1 {
        Some(32)
    } else if code == 2 || code == 3 {
        Some(48)
    } else if code == 4 {
        Some(64)
    } else {
        None
    }
}

/// Strips the GeoPackage binary header (magic, version, flags, optional
/// envelope) from a stored geometry and hands back the WKB payload that
/// follows it, unchanged. An invalid envelope indicator yields an empty
/// payload.
pub fn gpkg_geometry_to_wkb(b: &[u8]) -> (r: Vec<u8>)
    requires
        b@.len() >= 4,
        envelope_size(b@[3]) matches Some(es) ==> b@.len() >= 8 + es,
    ensures
        match envelope_size(b@[3]) {
            Some(es) => r@ == b@.skip(8 + es),
            None => r@.len() == 0,
        },
{
    let flags = b[3];
    let code = (flags / 2) % 8;
    let envelope_bytes: usize = if code == 0 {
        0
    } else if code == 1 {
        32
    } else if code == 2 || code == 3 {
        48
    } else if code == 4 {
        64
    } else {
        return Vec::new();
    };
    let offset = 8 + envelope_bytes;
    let mut r: Vec<u8> = Vec::new();
    let mut i: usize = offset;
    while i < b.len()
        invariant
            offset <= i <= b@.len(),
            r@ == b@.subrange(offset as int, i as int),
        decreases b@.len() - i,
    {
        r.push(b[i]);
        i = i + 1;
        proof {
            assert(r@ =~= b@.subrange(offset as int, i as int));
        }
    }
    proof {
        assert(r@ =~= b@.skip(offset as int));
    }
    r
}

/// The canonical type a declared SQL column type maps to, matched
/// ASCII-case-insensitively: the integer family, the real family, `TEXT`,
/// `BOOLEAN`, and the OGC geometry subtype names. Anything else has no
/// mapping.
pub open spec fn sql_column_type(s: Seq<char>) -> Option<ColumnType> {
    if crate::text::eq_upper(s, "TINYINT"@) || crate::text::eq_upper(s, "SMALLINT"@)
        || crate::text::eq_upper(s, "MEDIUMINT"@) || crate::text::eq_upper(s, "INT"@)
        || crate::text::eq_upper(s, "INTEGER"@) {
        Some(ColumnType::Integer)
    } else if crate::text::eq_upper(s, "DOUBLE"@) || crate::text::eq_upper(s, "FLOAT"@)
        || crate::text::eq_upper(s, "REAL"@) {
        Some(ColumnType::Double)
    } else if crate::text::eq_upper(s, "TEXT"@) {
        Some(ColumnType::Varchar)
    } else if crate::text::eq_upper(s, "BOOLEAN"@) {
        Some(ColumnType::Boolean)
    } else if crate::text::eq_upper(s, "GEOMETRY"@) || crate::text::eq_upper(s, "POINT"@)
        || crate::text::eq_upper(s, "LINESTRING"@) || crate::text::eq_upper(s, "POLYGON"@)
        || crate::text::eq_upper(s, "MULTIPOINT"@) || crate::text::eq_upper(s, "MULTILINESTRING"@)
        || crate::text::eq_upper(s, "MULTIPOLYGON"@) || crate::text::eq_upper(
        s,
        "GEOMETRYCOLLECTION"@,
    ) {
        Some(ColumnType::Geometry)
    } else {
        None
    }
}

/// Maps one declared SQL type to its canonical column type; `Err` carries
/// the declared type exactly when it has no mapping.
pub fn sql_type_to_column_type(s: &str) -> (r: Result<ColumnType, ScanError>)
    ensures
        match sql_column_type(s@) {
            Some(t) => r == Ok::<ColumnType, ScanError>(t),
            None => r matches Err(ScanError::UnsupportedType(u)) && u@ == s@,
        },
{
    if str_eq_upper(s, "TINYINT") || str_eq_upper(s, "SMALLINT") || str_eq_upper(s, "MEDIUMINT")
        || str_eq_upper(s, "INT") || str_eq_upper(s, "INTEGER") {
        Ok(ColumnType::Integer)
    } else if str_eq_upper(s, "DOUBLE") || str_eq_upper(s, "FLOAT") || str_eq_upper(s, "REAL") {
        Ok(ColumnType::Double)
    } else if str_eq_upper(s, "TEXT") {
        Ok(ColumnType::Varchar)
    } else if str_eq_upper(s, "BOOLEAN") {
        Ok(ColumnType::Boolean)
    } else if str_eq_upper(s, "GEOMETRY") || str_eq_upper(s, "POINT") || str_eq_upper(
        s,
        "LINESTRING",
    ) || str_eq_upper(s, "POLYGON") || str_eq_upper(s, "MULTIPOINT") || str_eq_upper(
        s,
        "MULTILINESTRING",
    ) || str_eq_upper(s, "MULTIPOLYGON") || str_eq_upper(s, "GEOMETRYCOLLECTION") {
        Ok(ColumnType::Geometry)
    } else {
        Err(ScanError::UnsupportedType(s.to_owned()))
    }
}

/// One column of a layer's table metadata: its name and its declared SQL
/// type, as the container's column catalogue reports them.
pub struct TableColumn {
    pub name: String,
    pub declared_type: String,
}

/// Whether every data column of a layer's table metadata has a canonical
/// type: the row-identity column `fid` is passed over, every other
/// column's declared type must map.
pub open spec fn gpkg_mappable(cols: Seq<TableColumn>) -> bool
    decreases cols.len(),
{
    if cols.len() == 0 {
        true
    } else if cols[0].name@ == "fid"@ {
        gpkg_mappable(cols.drop_first())
    } else {
        sql_column_type(cols[0].declared_type@) is Some && gpkg_mappable(cols.drop_first())
    }
}

/// The type a layer's table metadata declares for a name: that of its
/// first data column of that name, the row-identity column passed over.
pub open spec fn gpkg_lookup(cols: Seq<TableColumn>, name: Seq<char>) -> Option<ColumnType>
    decreases cols.len(),
{
    if cols.len() == 0 {
        None
    } else if cols[0].name@ == "fid"@ {
        gpkg_lookup(cols.drop_first(), name)
    } else if cols[0].name@ == name {
        sql_column_type(cols[0].declared_type@)
    } else {
        gpkg_lookup(cols.drop_first(), name)
    }
}

/// A catalogue in which no column carries the name declares nothing for it.
proof fn lemma_gpkg_lookup_absent(cols: Seq<TableColumn>, name: Seq<char>)
    requires
        forall|j: int| 0 <= j < cols.len() ==> cols[j].name@ != name,
    ensures
        gpkg_lookup(cols, name) is None,
    decreases cols.len(),
{
    if cols.len() > 0 {
        lemma_gpkg_lookup_absent(cols.drop_first(), name);
    }
}

/// Builds the column specs of one layer from its table metadata, in
/// canonical (name-sorted) order, excluding the row-identity column.
/// Catalogue names are unique in a well-formed table.
pub fn column_specs_from_table_info(cols: &Vec<TableColumn>) -> (r: Result<
    Vec<ColumnSpec>,
    ScanError,
>)
    requires
        forall|i: int, j: int| 0 <= i < j < cols@.len() ==> cols@[i].name@ != cols@[j].name@,
    ensures
        r is Ok <==> gpkg_mappable(cols@),
        r matches Err(e) ==> e matches ScanError::UnsupportedType(_),
        r matches Ok(v) ==> schema_sorted(v@) && (forall|name: Seq<char>| #![auto]
            schema_lookup(v@, name) == gpkg_lookup(cols@, name)),
{
    proof {
        assert(cols@.skip(0) =~= cols@);
    }
    column_specs_from(cols, 0)
}

/// The recursive worker over the column catalogue from index `i` on.
fn column_specs_from(cols: &Vec<TableColumn>, i: usize) -> (r: Result<Vec<ColumnSpec>, ScanError>)
    requires
        i <= cols@.len(),
        forall|a: int, b: int| 0 <= a < b < cols@.len() ==> cols@[a].name@ != cols@[b].name@,
    ensures
        r is Ok <==> gpkg_mappable(cols@.skip(i as int)),
        r matches Err(e) ==> e matches ScanError::UnsupportedType(_),
        r matches Ok(v) ==> schema_sorted(v@) && (forall|name: Seq<char>| #![auto]
            schema_lookup(v@, name) == gpkg_lookup(cols@.skip(i as int), name)),
    decreases cols@.len() - i,
{
    if i == cols.len() {
        proof {
            assert(cols@.skip(i as int).len() == 0);
            assert(forall|name: Seq<char>| #![auto]
                gpkg_lookup(cols@.skip(i as int), name) is None);
        }
        return Ok(Vec::new());
    }
    proof {
        assert(cols@.skip(i as int)[0] == cols@[i as int]);
        assert(cols@.skip(i as int).drop_first() =~= cols@.skip(i + 1));
    }
    let col = &cols[i];
    if str_eq(col.name.as_str(), "fid") {
        return column_specs_from(cols, i + 1);
    }
    let ty = match sql_type_to_column_type(col.declared_type.as_str()) {
        Ok(t) => t,
        Err(e) => {
            return Err(e);
        },
    };
    let mut rest = match column_specs_from(cols, i + 1) {
        Ok(v) => v,
        Err(e) => {
            return Err(e);
        },
    };
    proof {
        assert(schema_lookup(rest@, cols@[i as int].name@) is None) by {
            assert forall|j: int|
                0 <= j < cols@.skip(i + 1).len() implies (#[trigger] cols@.skip(i + 1)[j]).name@
                != cols@[i as int].name@ by {
                assert(cols@.skip(i + 1)[j] == cols@[j + i + 1]);
            }
            lemma_gpkg_lookup_absent(cols@.skip(i + 1), cols@[i as int].name@);
        }
    }
    crate::geojson::insert_sorted(&mut rest, ColumnSpec { name: col.name.clone(), column_type: ty });
    Ok(rest)
}

/// The position of the first Geometry-typed column of a schema, if any.
pub open spec fn first_geom(specs: Seq<ColumnSpec>) -> Option<int>
    decreases specs.len(),
{
    if specs.len() == 0 {
        None
    } else if specs[0].column_type == ColumnType::Geometry {
        Some(0)
    } else {
        match first_geom(specs.drop_first()) {
            Some(g) => Some(g + 1),
            None => None,
        }
    }
}

/// The index found is in range, is Geometry-typed, and nothing before it is.
pub proof fn lemma_first_geom(specs: Seq<ColumnSpec>)
    ensures
        first_geom(specs) matches Some(g) ==> 0 <= g < specs.len() && specs[g].column_type
            == ColumnType::Geometry && (forall|m: int|
            0 <= m < g ==> specs[m].column_type != ColumnType::Geometry),
        first_geom(specs) is None ==> forall|m: int|
            0 <= m < specs.len() ==> specs[m].column_type != ColumnType::Geometry,
    decreases specs.len(),
{
    if specs.len() > 0 && specs[0].column_type != ColumnType::Geometry {
        lemma_first_geom(specs.drop_first());
        assert(forall|m: int| 1 <= m < specs.len() ==> specs[m] == specs.drop_first()[m - 1]);
    }
}

/// The data columns in declared order: the first Geometry-typed column is
/// pulled to the front, everything else keeps its place.
pub fn geometry_first(specs: &Vec<ColumnSpec>) -> (r: Vec<ColumnSpec>)
    ensures
        r@.len() == specs@.len(),
        match first_geom(specs@) {
            Some(g) => {
                &&& r@[0] == specs@[g]
                &&& forall|j: int| 0 <= j < g ==> r@[j + 1] == specs@[j]
                &&& forall|j: int| g < j < specs@.len() ==> r@[j] == specs@[j]
            },
            None => r@ == specs@,
        },
{
    let mut g: usize = 0;
    while g < specs.len() && !(specs[g].column_type == ColumnType::Geometry)
        invariant
            g <= specs@.len(),
            forall|m: int| 0 <= m < g ==> specs@[m].column_type != ColumnType::Geometry,
        decreases specs@.len() - g,
    {
        g = g + 1;
    }
    proof {
        lemma_first_geom_at(specs@, g as int);
    }
    let mut r: Vec<ColumnSpec> = Vec::new();
    if g < specs.len() {
        r.push(specs[g].clone());
    }
    let mut j: usize = 0;
    while j < specs.len()
        invariant
            j <= specs@.len(),
            g <= specs@.len(),
            g < specs@.len() ==> first_geom(specs@) == Some(g as int),
            g == specs@.len() ==> first_geom(specs@) is None,
            g < specs@.len() ==> {
                &&& r@.len() == (if j <= g {
                    j + 1
                } else {
                    j as int
                })
                &&& r@[0] == specs@[g as int]
                &&& forall|m: int| 0 <= m < j && m < g ==> r@[m + 1] == specs@[m]
                &&& forall|m: int| g < m < j ==> r@[m] == specs@[m]
            },
            g == specs@.len() ==> r@ =~= specs@.subrange(0, j as int),
        decreases specs@.len() - j,
    {
        if j != g {
            r.push(specs[j].clone());
        }
        j = j + 1;
    }
    proof {
        if g == specs@.len() {
            assert(r@ =~= specs@);
        }
    }
    r
}

/// A prefix free of Geometry columns puts the first Geometry column, if
/// any, exactly at its end.
proof fn lemma_first_geom_at(specs: Seq<ColumnSpec>, g: int)
    requires
        0 <= g <= specs.len(),
        forall|m: int| 0 <= m < g ==> specs[m].column_type != ColumnType::Geometry,
        g < specs.len() ==> specs[g].column_type == ColumnType::Geometry,
    ensures
        g < specs.len() ==> first_geom(specs) == Some(g),
        g == specs.len() ==> first_geom(specs) is None,
    decreases g,
{
    if g > 0 {
        assert(specs[0].column_type != ColumnType::Geometry);
        lemma_first_geom_at(specs.drop_first(), g - 1);
        assert(forall|m: int| 0 <= m < g - 1 ==> specs.drop_first()[m] == specs[m + 1]);
        if g < specs.len() {
            assert(specs.drop_first()[g - 1] == specs[g]);
        }
    }
}

/// What position `m` of the assembled source list must hold: the container's
/// path, layer `m`'s name, and the column specs derived for that layer.
pub open spec fn paired_source(
    out: Seq<GpkgDataSource>,
    path: Seq<char>,
    layers: Seq<String>,
    specs: Seq<Vec<ColumnSpec>>,
    m: int,
) -> bool {
    &&& out[m].filename@ == path
    &&& out[m].layer_name@ == layers[m]@
    &&& out[m].column_specs == specs[m]
}

/// What position `m` of the assembled scan-source list must hold: layer
/// `m`'s identity cells and exactly the rows fetched for it.
pub open spec fn paired_scan_source(
    out: Seq<ScanSource>,
    sources: Seq<GpkgDataSource>,
    rows: Seq<Vec<Row>>,
    m: int,
) -> bool {
    &&& out[m].filename@ == sources[m].filename@
    &&& out[m].layer matches Some(l) && l@ == sources[m].layer_name@
    &&& out[m].rows == rows[m]
}

/// One opened GeoPackage container: its path and the layers this scan will
/// read from it. The SQL connection itself stays with the caller.
pub struct Gpkg {
    pub path: String,
    pub layers: Vec<String>,
}

/// Whether some layer of the container carries this name.
pub open spec fn has_layer(layers: Seq<String>, name: Seq<char>) -> bool {
    exists|i: int| 0 <= i < layers.len() && layers[i]@ == name
}

impl Gpkg {
    /// Selects the layers a scan will read: all the container's layers, or
    /// exactly the requested one, which must exist.
    pub fn new(path: String, all_layers: Vec<String>, layer_name: Option<String>) -> (r: Result<
        Gpkg,
        ScanError,
    >)
        ensures
            layer_name matches Some(l) ==> {
                &&& (r is Ok <==> has_layer(all_layers@, l@))
                &&& r matches Ok(g) ==> (g.path == path && g.layers@.len() == 1 && g.layers@[0]@
                    == l@)
                &&& r matches Err(e) ==> (e matches ScanError::NoSuchLayer {
                    layer,
                    filename,
                } && layer@ == l@ && filename@ == path@)
            },
            layer_name is None ==> (r matches Ok(g) && g.path == path && g.layers == all_layers),
    {
        match layer_name {
            Some(l) => {
                let mut i: usize = 0;
                while i < all_layers.len()
                    invariant
                        i <= all_layers@.len(),
                        layer_name == Some(l),
                        forall|m: int| 0 <= m < i ==> all_layers@[m]@ != l@,
                    decreases all_layers@.len() - i,
                {
                    if str_eq(all_layers[i].as_str(), l.as_str()) {
                        proof {
                            assert(all_layers@[i as int]@ == l@);
                            assert(has_layer(all_layers@, l@));
                        }
                        let mut layers: Vec<String> = Vec::new();
                        layers.push(l);
                        return Ok(Gpkg { path, layers });
                    }
                    i = i + 1;
                }
                proof {
                    if has_layer(all_layers@, l@) {
                        let w = choose|w: int| 0 <= w < all_layers@.len() && all_layers@[w]@ == l@;
                        assert(false);
                    }
                }
                Err(ScanError::NoSuchLayer { layer: l, filename: path })
            },
            None => Ok(Gpkg { path, layers: all_layers }),
        }
    }

    /// Pairs each selected layer with the column specs the caller derived
    /// from its table metadata, in layer order.
    pub fn list_data_sources(&self, specs_per_layer: Vec<Vec<ColumnSpec>>) -> (r: Vec<
        GpkgDataSource,
    >)
        requires
            specs_per_layer@.len() == self.layers@.len(),
        ensures
            r@.len() == self.layers@.len(),
            forall|k: int|
                0 <= k < r@.len() ==> #[trigger] paired_source(
                    r@,
                    self.path@,
                    self.layers@,
                    specs_per_layer@,
                    k,
                ),
    {
        let ghost spl0 = specs_per_layer@;
        let mut out: Vec<GpkgDataSource> = Vec::new();
        let mut k: usize = 0;
        let mut specs_per_layer = specs_per_layer;
        while k < self.layers.len()
            invariant
                k <= self.layers@.len(),
                out@.len() == k,
                spl0.len() == self.layers@.len(),
                specs_per_layer@.len() + k == self.layers@.len(),
                forall|m: int|
                    0 <= m < k ==> #[trigger] paired_source(
                        out@,
                        self.path@,
                        self.layers@,
                        spl0,
                        m,
                    ),
                forall|m: int| 0 <= m < specs_per_layer@.len() ==> specs_per_layer@[m] == spl0[m + k],
            decreases self.layers@.len() - k,
        {
            let ghost before = specs_per_layer@;
            let specs = specs_per_layer.remove(0);
            proof {
                assert(specs == spl0[k as int]);
                assert(specs_per_layer@ =~= before.subrange(1, before.len() as int));
            }
            let ghost out0 = out@;
            out.push(
                GpkgDataSource {
                    filename: self.path.clone(),
                    layer_name: self.layers[k].clone(),
                    column_specs: specs,
                },
            );
            proof {
                let kk = k as int;
                assert forall|m: int| 0 <= m < kk + 1 implies #[trigger] paired_source(
                    out@,
                    self.path@,
                    self.layers@,
                    spl0,
                    m,
                ) by {
                    if m < kk {
                        assert(paired_source(out0, self.path@, self.layers@, spl0, m));
                        assert(out@[m] == out0[m]);
                    } else {
                        assert(out@[kk].column_specs == spl0[kk]);
                    }
                }
            }
            k = k + 1;
        }
        out
    }
}

/// One layer of one container, with its inferred column specs: the unit
/// the schema unifier and the scan work with.
pub struct GpkgDataSource {
    pub filename: String,
    pub layer_name: String,
    pub column_specs: Vec<ColumnSpec>,
}

/// The bind-time product of the GeoPackage path: the opened sources and
/// the one schema they all share.
pub struct GpkgBindData {
    pub sources: Vec<GpkgDataSource>,
    pub column_specs: Vec<ColumnSpec>,
}

/// Binds a set of opened GeoPackage layers: the first layer's schema is
/// the baseline, and every later layer must match it column for column.
pub fn bind_gpkg(sources: Vec<GpkgDataSource>) -> (r: Result<GpkgBindData, ScanError>)
    requires
        sources@.len() >= 1,
    ensures
        r matches Ok(bind) ==> {
            &&& bind.sources == sources
            &&& bind.column_specs@ == sources@[0].column_specs@
            &&& forall|k: int| #![auto]
                0 <= k < sources@.len() ==> schemas_equal(
                    sources@[k].column_specs@,
                    bind.column_specs@,
                )
        },
        r matches Err(e) ==> (e matches ScanError::SchemaMismatch { filename, detail } && exists|
            k: int,
        | #![auto]
            1 <= k < sources@.len() && filename@ == sources@[k].filename@ && !schemas_equal(
                sources@[0].column_specs@,
                sources@[k].column_specs@,
            ) && (forall|m: int|
                1 <= m < k ==> schemas_equal(
                    sources@[m].column_specs@,
                    sources@[0].column_specs@,
                ))),
{
    let base = clone_specs(&sources[0].column_specs);
    let mut k: usize = 1;
    while k < sources.len()
        invariant
            1 <= k <= sources@.len(),
            base@ == sources@[0].column_specs@,
            forall|m: int| #![auto]
                0 <= m < k ==> schemas_equal(sources@[m].column_specs@, base@),
        decreases sources@.len() - k,
    {
        match validate_schema(&base, &sources[k].column_specs, sources[k].filename.as_str()) {
            Ok(()) => {},
            Err(e) => {
                return Err(e);
            },
        }
        k = k + 1;
    }
    proof {
        assert(schemas_equal(sources@[0].column_specs@, base@));
    }
    Ok(GpkgBindData { sources, column_specs: base })
}

/// Copies a schema element by element.
fn clone_specs(specs: &Vec<ColumnSpec>) -> (r: Vec<ColumnSpec>)
    ensures
        r@ == specs@,
{
    let mut r: Vec<ColumnSpec> = Vec::new();
    let mut i: usize = 0;
    while i < specs.len()
        invariant
            i <= specs@.len(),
            r@ == specs@.subrange(0, i as int),
        decreases specs@.len() - i,
    {
        r.push(specs[i].clone());
        i = i + 1;
        proof {
            assert(r@ =~= specs@.subrange(0, i as int));
        }
    }
    proof {
        assert(r@ =~= specs@);
    }
    r
}

impl GpkgBindData {
    /// Assembles the scan sources from the rows the caller fetched for
    /// each bound layer, in layer order.
    pub fn scan_sources(&self, rows_per_source: Vec<Vec<Row>>) -> (r: Vec<ScanSource>)
        requires
            rows_per_source@.len() == self.sources@.len(),
        ensures
            r@.len() == self.sources@.len(),
            forall|k: int|
                0 <= k < r@.len() ==> #[trigger] paired_scan_source(
                    r@,
                    self.sources@,
                    rows_per_source@,
                    k,
                ),
    {
        let ghost rps0 = rows_per_source@;
        let mut out: Vec<ScanSource> = Vec::new();
        let mut k: usize = 0;
        let mut rows_per_source = rows_per_source;
        while k < self.sources.len()
            invariant
                k <= self.sources@.len(),
                out@.len() == k,
                rps0.len() == self.sources@.len(),
                rows_per_source@.len() + k == self.sources@.len(),
                forall|m: int|
                    0 <= m < k ==> #[trigger] paired_scan_source(out@, self.sources@, rps0, m),
                forall|m: int|
                    0 <= m < rows_per_source@.len() ==> rows_per_source@[m] == rps0[m + k],
            decreases self.sources@.len() - k,
        {
            let ghost before = rows_per_source@;
            let rows = rows_per_source.remove(0);
            proof {
                assert(rows == rps0[k as int]);
                assert(rows_per_source@ =~= before.subrange(1, before.len() as int));
            }
            let ghost out0 = out@;
            out.push(
                ScanSource {
                    filename: self.sources[k].filename.clone(),
                    layer: Some(self.sources[k].layer_name.clone()),
                    rows,
                },
            );
            proof {
                let kk = k as int;
                assert forall|m: int| 0 <= m < kk + 1 implies #[trigger] paired_scan_source(
                    out@,
                    self.sources@,
                    rps0,
                    m,
                ) by {
                    if m < kk {
                        assert(paired_scan_source(out0, self.sources@, rps0, m));
                        assert(out@[m] == out0[m]);
                    } else {
                        assert(out@[kk].rows == rps0[kk]);
                    }
                }
            }
            k = k + 1;
        }
        out
    }
}

} // verus!

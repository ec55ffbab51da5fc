use vstd::prelude::*;

use crate::text::lex_lt;

verus! {

/// The canonical column type lattice every source format maps into.
#[derive(Clone, Copy, Debug, PartialEq, Eq, Structural)]
pub enum ColumnType {
    Boolean,
    Varchar,
    Double,
    Integer,
    Geometry,
}

/// One declared output column: a name and its canonical type.
pub struct ColumnSpec {
    pub name: String,
    pub column_type: ColumnType,
}

impl Clone for ColumnSpec {
    fn clone(&self) -> (res: Self)
        ensures
            res == *self,
    {
        ColumnSpec { name: self.name.clone(), column_type: self.column_type }
    }
}

/// One materialized cell of a batch. Floating-point values are carried as the
/// IEEE-754 bit pattern of the `f64` they stand for.
#[derive(Debug)]
pub enum CellValue {
    Null,
    Boolean(bool),
    Integer(i64),
    Double(u64),
    Text(String),
    Geometry(Vec<u8>),
}

/// The mathematical value of one cell: strings and byte buffers are taken
/// as the sequences they hold.
pub enum CellV {
    Null,
    Boolean(bool),
    Integer(i64),
    Double(u64),
    Text(Seq<char>),
    Geometry(Seq<u8>),
}

impl DeepView for CellValue {
    type V = CellV;

    open spec fn deep_view(&self) -> CellV {
        match self {
            CellValue::Null => CellV::Null,
            CellValue::Boolean(b) => CellV::Boolean(*b),
            CellValue::Integer(n) => CellV::Integer(*n),
            CellValue::Double(bits) => CellV::Double(*bits),
            CellValue::Text(s) => CellV::Text(s@),
            CellValue::Geometry(bytes) => CellV::Geometry(bytes@),
        }
    }
}

/// Copies a byte buffer element by element.
fn clone_bytes(v: &Vec<u8>) -> (r: Vec<u8>)
    ensures
        r@ == v@,
{
    let mut r: Vec<u8> = Vec::new();
    let mut i: usize = 0;
    while i < v.len()
        invariant
            i <= v.len(),
            r@ == v@.subrange(0, i as int),
        decreases v.len() - i,
    {
        r.push(v[i]);
        i = i + 1;
        proof {
            assert(r@ =~= v@.subrange(0, i as int));
        }
    }
    proof {
        assert(r@ =~= v@);
    }
    r
}

impl Clone for CellValue {
    fn clone(&self) -> (res: Self)
        ensures
            res.deep_view() == self.deep_view(),
    {
        match self {
            CellValue::Null => CellValue::Null,
            CellValue::Boolean(b) => CellValue::Boolean(*b),
            CellValue::Integer(n) => CellValue::Integer(*n),
            CellValue::Double(bits) => CellValue::Double(*bits),
            CellValue::Text(s) => CellValue::Text(s.clone()),
            CellValue::Geometry(bytes) => CellValue::Geometry(clone_bytes(bytes)),
        }
    }
}

/// One materialized row: its cells, in declared column order.
pub type Row = Vec<CellValue>;

/// A schema in canonical order: every column name strictly below the next,
/// so names are unique and the order is fixed.
pub open spec fn schema_sorted(specs: Seq<ColumnSpec>) -> bool {
    forall|i: int, j: int|
        0 <= i < j < specs.len() ==> lex_lt(specs[i].name@, specs[j].name@)
}

/// The type a schema declares for a name: that of its first column of that
/// name, if any.
pub open spec fn schema_lookup(specs: Seq<ColumnSpec>, name: Seq<char>) -> Option<ColumnType>
    decreases specs.len(),
{
    if specs.len() == 0 {
        None
    } else if specs[0].name@ == name {
        Some(specs[0].column_type)
    } else {
        schema_lookup(specs.drop_first(), name)
    }
}

/// Column-by-column equality of two schemas: same length, and name and type
/// agree at every position.
pub open spec fn schemas_equal(a: Seq<ColumnSpec>, b: Seq<ColumnSpec>) -> bool {
    a.len() == b.len() && forall|i: int|
        0 <= i < a.len() ==> a[i].name@ == b[i].name@ && a[i].column_type == b[i].column_type
}

/// The exact way two schemas were found to disagree.
#[derive(Debug)]
pub enum MismatchKind {
    ColumnCount { expected: usize, found: usize },
    ColumnName { index: usize, expected: String, found: String },
    ColumnType { index: usize, name: String, expected: ColumnType, found: ColumnType },
}

/// The single fatal error surface of the engine: every variant aborts the
/// whole bind or the whole scan; nothing is retried or skipped.
#[derive(Debug)]
pub enum ScanError {
    /// No file matched the requested pattern.
    Discovery,
    /// A sampled value has no mapping into `ColumnType`; carries the name of
    /// the offending token or property.
    UnsupportedType(String),
    /// A later source disagreed with the schema of the first source.
    SchemaMismatch { filename: String, detail: MismatchKind },
    /// A file is not what its format requires it to be (wrong extension mix,
    /// a GeoJSON document that is no feature collection, ...).
    FormatViolation(String),
    /// A layer was requested by name and the container does not have it.
    NoSuchLayer { layer: String, filename: String },
    /// A geometry payload could not be converted to WKB.
    CorruptGeometry(String),
    /// A feature of a format that mandates geometry carried none.
    MissingGeometry,
}

} // verus!

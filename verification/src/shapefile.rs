use vstd::prelude::*;

use crate::scan::ScanSource;
use crate::text::str_eq;
use crate::types::schema_lookup;
use crate::types::schema_sorted;
use crate::types::CellValue;
use crate::types::ColumnSpec;
use crate::types::ColumnType;
use crate::types::ScanError;

verus! {

#[verifier::external_type_specification]
#[verifier::external_body]
pub struct ExShape(shapefile::Shape);

/// Relies on shapefile's geo-types conversion and wkb's `write_geometry`:
/// the null shape stands for an absent geometry and becomes `None`; any
/// other shape becomes its WKB bytes. The bytes are a function of the
/// opaque shape value; nothing further is assumed of them.
#[verifier::external_body]
fn shape_wkb(shape: shapefile::Shape) -> (r: Result<Option<Vec<u8>>, ScanError>)
    ensures
        r is Ok || r matches Err(ScanError::CorruptGeometry(_)),
{
    if matches!(shape, shapefile::Shape::NullShape) {
        return Ok(None);
    }
    let geometry: geo_types::Geometry = match shape.try_into() {
        Ok(geometry) => geometry,
        Err(_) => return Err(ScanError::CorruptGeometry(String::from("shape value"))),
    };
    let mut buffer: Vec<u8> = Vec::new();
    let options = wkb::writer::WriteOptions::default();
    match wkb::writer::write_geometry(&mut buffer, &geometry, &options) {
        Ok(()) => Ok(Some(buffer)),
        Err(_) => Err(ScanError::CorruptGeometry(String::from("wkb encoding"))),
    }
}

/// The field types a DBF attribute table declares.
#[derive(Clone, Copy, Debug, PartialEq, Eq, Structural)]
pub enum DbfFieldType {
    Character,
    Currency,
    Date,
    DateTime,
    Double,
    Float,
    Integer,
    Logical,
    Memo,
    Numeric,
}

/// The canonical type each DBF field type maps to: logicals to Boolean;
/// integers to Integer; the numeric family and date-times (as timestamps)
/// to Double; text, memos and dates (kept textual) to Varchar.
pub open spec fn dbf_column_type(t: DbfFieldType) -> ColumnType {
    match t {
        DbfFieldType::Logical => ColumnType::Boolean,
        DbfFieldType::Integer => ColumnType::Integer,
        DbfFieldType::Numeric => ColumnType::Double,
        DbfFieldType::Float => ColumnType::Double,
        DbfFieldType::Currency => ColumnType::Double,
        DbfFieldType::Double => ColumnType::Double,
        DbfFieldType::DateTime => ColumnType::Double,
        DbfFieldType::Character => ColumnType::Varchar,
        DbfFieldType::Memo => ColumnType::Varchar,
        DbfFieldType::Date => ColumnType::Varchar,
    }
}

impl From<DbfFieldType> for ColumnType {
    fn from(value: DbfFieldType) -> (r: Self) {
        match value {
            DbfFieldType::Logical => ColumnType::Boolean,
            DbfFieldType::Integer => ColumnType::Integer,
            DbfFieldType::Numeric => ColumnType::Double,
            DbfFieldType::Float => ColumnType::Double,
            DbfFieldType::Currency => ColumnType::Double,
            DbfFieldType::Double => ColumnType::Double,
            DbfFieldType::DateTime => ColumnType::Double,
            DbfFieldType::Character => ColumnType::Varchar,
            DbfFieldType::Memo => ColumnType::Varchar,
            DbfFieldType::Date => ColumnType::Varchar,
        }
    }
}

impl vstd::std_specs::convert::FromSpecImpl<DbfFieldType> for ColumnType {
    open spec fn obeys_from_spec() -> bool {
        true
    }

    open spec fn from_spec(t: DbfFieldType) -> ColumnType {
        dbf_column_type(t)
    }
}

/// One declared field of a DBF attribute table.
pub struct DbfField {
    pub name: String,
    pub field_type: DbfFieldType,
}

/// One attribute value of one record, under its field name.
pub struct RecordEntry {
    pub name: String,
    pub value: CellValue,
}

/// One DBF record: its attribute values in field order.
pub struct Record {
    pub entries: Vec<RecordEntry>,
}

/// The first entry of this name in a record, if any.
pub open spec fn record_lookup(entries: Seq<RecordEntry>, name: Seq<char>) -> Option<CellValue>
    decreases entries.len(),
{
    if entries.len() == 0 {
        None
    } else if entries[0].name@ == name {
        Some(entries[0].value)
    } else {
        record_lookup(entries.drop_first(), name)
    }
}

impl Record {
    /// Finds the attribute value stored under this field name.
    pub fn get<'a>(&'a self, name: &str) -> (r: Option<&'a CellValue>)
        ensures
            match record_lookup(self.entries@, name@) {
                Some(v) => r matches Some(rv) && *rv == v,
                None => r is None,
            },
    {
        let mut k: usize = 0;
        proof {
            assert(self.entries@.skip(0) =~= self.entries@);
        }
        while k < self.entries.len()
            invariant
                k <= self.entries@.len(),
                record_lookup(self.entries@, name@) == record_lookup(
                    self.entries@.skip(k as int),
                    name@,
                ),
            decreases self.entries@.len() - k,
        {
            proof {
                assert(self.entries@.skip(k as int)[0] == self.entries@[k as int]);
                assert(self.entries@.skip(k as int).drop_first() =~= self.entries@.skip(k + 1));
            }
            if str_eq(self.entries[k].name.as_str(), name) {
                return Some(&self.entries[k].value);
            }
            k = k + 1;
        }
        proof {
            assert(self.entries@.skip(k as int).len() == 0);
        }
        None
    }
}

/// One shape record: its geometry already normalized to WKB (`None` for a
/// null shape) and its attribute record.
pub struct ShapefileRow {
    pub geometry: Option<Vec<u8>>,
    pub record: Record,
}

/// One opened Shapefile triple: its rows, its display name, its column
/// specs in canonical order, and the encoding the sidecar hint selected,
/// if any.
pub struct ShapefileDataSource {
    pub rows: Vec<ShapefileRow>,
    pub filename: String,
    pub column_specs: Vec<ColumnSpec>,
    pub inferred_cpg_encoding: Option<String>,
}

/// The type a DBF field list declares for a name: that of its first field
/// of that name, if any.
pub open spec fn field_lookup(fields: Seq<DbfField>, name: Seq<char>) -> Option<ColumnType>
    decreases fields.len(),
{
    if fields.len() == 0 {
        None
    } else if fields[0].name@ == name {
        Some(dbf_column_type(fields[0].field_type))
    } else {
        field_lookup(fields.drop_first(), name)
    }
}

impl ShapefileDataSource {
    /// Opens one already-read Shapefile triple: the column specs come from
    /// the DBF field list, sorted into canonical order, and every shape is
    /// normalized to WKB. Field names are unique in a well-formed table.
    pub fn new(
        fields: &Vec<DbfField>,
        shapes: Vec<(shapefile::Shape, Record)>,
        filename: String,
        inferred_cpg_encoding: Option<String>,
    ) -> (r: Result<ShapefileDataSource, ScanError>)
        requires
            forall|i: int, j: int|
                0 <= i < j < fields@.len() ==> fields@[i].name@ != fields@[j].name@,
        ensures
            r matches Ok(src) ==> {
                &&& src.filename == filename
                &&& src.inferred_cpg_encoding == inferred_cpg_encoding
                &&& schema_sorted(src.column_specs@)
                &&& forall|name: Seq<char>| #![auto]
                    schema_lookup(src.column_specs@, name) == field_lookup(fields@, name)
                &&& src.rows@.len() == shapes@.len()
                &&& forall|i: int|
                    0 <= i < shapes@.len() ==> (#[trigger] src.rows@[i]).record == shapes@[i].1
            },
            r matches Err(e) ==> e matches ScanError::CorruptGeometry(_),
            shapes@.len() == 0 ==> r is Ok,
    {
        let column_specs = sorted_specs_of_fields(fields);
        let mut rows: Vec<ShapefileRow> = Vec::new();
        let ghost shapes0 = shapes@;
        let mut remaining = shapes;
        let total: usize = remaining.len();
        let mut i: usize = 0;
        while remaining.len() > 0
            invariant
                rows@.len() == i,
                shapes0 == shapes@,
                total == shapes0.len(),
                shapes0.len() == i + remaining@.len(),
                forall|m: int| 0 <= m < remaining@.len() ==> remaining@[m] == shapes0[m + i],
                forall|m: int| 0 <= m < i ==> (#[trigger] rows@[m]).record == shapes0[m].1,
            decreases remaining@.len(),
        {
            let ghost before = remaining@;
            let (shape, record) = remaining.remove(0);
            proof {
                assert(remaining@ =~= before.subrange(1, before.len() as int));
            }
            let geometry = match shape_wkb(shape) {
                Ok(g) => g,
                Err(e) => {
                    return Err(e);
                },
            };
            rows.push(ShapefileRow { geometry, record });
            i = i + 1;
        }
        Ok(ShapefileDataSource { rows, filename, column_specs, inferred_cpg_encoding })
    }

    /// The canonical column specs of this source.
    pub fn get_column_specs(&self) -> (r: Vec<ColumnSpec>)
        ensures
            r@ == self.column_specs@,
    {
        let mut r: Vec<ColumnSpec> = Vec::new();
        let mut i: usize = 0;
        while i < self.column_specs.len()
            invariant
                i <= self.column_specs@.len(),
                r@ == self.column_specs@.subrange(0, i as int),
            decreases self.column_specs@.len() - i,
        {
            r.push(self.column_specs[i].clone());
            i = i + 1;
            proof {
                assert(r@ =~= self.column_specs@.subrange(0, i as int));
            }
        }
        proof {
            assert(r@ =~= self.column_specs@);
        }
        r
    }
}

/// Maps every DBF field to a column spec and sorts the result by name.
fn sorted_specs_of_fields(fields: &Vec<DbfField>) -> (r: Vec<ColumnSpec>)
    requires
        forall|i: int, j: int|
            0 <= i < j < fields@.len() ==> fields@[i].name@ != fields@[j].name@,
    ensures
        schema_sorted(r@),
        forall|name: Seq<char>| #![auto] schema_lookup(r@, name) == field_lookup(fields@, name),
{
    let mut specs: Vec<ColumnSpec> = Vec::new();
    let mut i: usize = 0;
    proof {
        assert(fields@.take(0) =~= Seq::<DbfField>::empty());
    }
    while i < fields.len()
        invariant
            i <= fields@.len(),
            forall|a: int, b: int|
                0 <= a < b < fields@.len() ==> fields@[a].name@ != fields@[b].name@,
            schema_sorted(specs@),
            forall|name: Seq<char>| #![auto]
                schema_lookup(specs@, name) == field_lookup(fields@.take(i as int), name),
        decreases fields@.len() - i,
    {
        let f = &fields[i];
        let ty = ColumnType::from(f.field_type);
        proof {
            lemma_field_lookup_push(fields@.take(i as int), fields@[i as int]);
            assert(fields@.take(i + 1) =~= fields@.take(i as int).push(fields@[i as int]));
            assert(field_lookup(fields@.take(i as int), fields@[i as int].name@) is None) by {
                lemma_field_lookup_exists(fields@.take(i as int), fields@[i as int].name@);
                assert(forall|m: int|
                    0 <= m < i ==> fields@.take(i as int)[m].name@ == fields@[m].name@);
            }
        }
        crate::geojson::insert_sorted(
            &mut specs,
            ColumnSpec { name: f.name.clone(), column_type: ty },
        );
        i = i + 1;
    }
    proof {
        assert(fields@.take(fields@.len() as int) =~= fields@);
    }
    specs
}

/// A name is declared by a field list exactly when some field carries it.
proof fn lemma_field_lookup_exists(fields: Seq<DbfField>, name: Seq<char>)
    ensures
        (field_lookup(fields, name) is Some) <==> (exists|i: int|
            0 <= i < fields.len() && fields[i].name@ == name),
    decreases fields.len(),
{
    if fields.len() > 0 {
        if fields[0].name@ == name {
        } else {
            lemma_field_lookup_exists(fields.drop_first(), name);
            if field_lookup(fields, name) is Some {
                let i = choose|i: int|
                    0 <= i < fields.drop_first().len() && fields.drop_first()[i].name@ == name;
                assert(fields[i + 1].name@ == name);
            }
            if exists|i: int| 0 <= i < fields.len() && fields[i].name@ == name {
                let i = choose|i: int| 0 <= i < fields.len() && fields[i].name@ == name;
                assert(i >= 1);
                assert(fields.drop_first()[i - 1].name@ == name);
            }
        }
    }
}

/// What appending one field does to the declared types: a declared name
/// keeps its type; the new name gets the new field's type.
proof fn lemma_field_lookup_push(fields: Seq<DbfField>, f: DbfField)
    ensures
        forall|name: Seq<char>| #![auto]
            field_lookup(fields, name) is Some ==> field_lookup(fields.push(f), name)
                == field_lookup(fields, name),
        forall|name: Seq<char>| #![auto]
            field_lookup(fields, name) is None && f.name@ == name ==> field_lookup(
                fields.push(f),
                name,
            ) == Some(dbf_column_type(f.field_type)),
        forall|name: Seq<char>| #![auto]
            field_lookup(fields, name) is None && f.name@ != name ==> field_lookup(
                fields.push(f),
                name,
            ) is None,
    decreases fields.len(),
{
    if fields.len() == 0 {
        assert forall|name: Seq<char>| #![auto]
            (field_lookup(fields, name) is None) && (field_lookup(fields.push(f), name) == (
            if f.name@ == name {
                Some(dbf_column_type(f.field_type))
            } else {
                None::<ColumnType>
            })) by {
            assert(fields.push(f)[0] == f);
            assert(fields.push(f).drop_first() =~= Seq::<DbfField>::empty());
            assert(field_lookup(Seq::<DbfField>::empty(), name) is None);
        }
    } else {
        lemma_field_lookup_push(fields.drop_first(), f);
        assert forall|name: Seq<char>| #![auto]
            (field_lookup(fields, name) is Some ==> field_lookup(fields.push(f), name)
                == field_lookup(fields, name)) && (field_lookup(fields, name) is None && f.name@
                == name ==> field_lookup(fields.push(f), name) == Some(
                dbf_column_type(f.field_type),
            )) && (field_lookup(fields, name) is None && f.name@ != name ==> field_lookup(
                fields.push(f),
                name,
            ) is None) by {
            assert(fields.push(f)[0] == fields[0]);
            assert(fields.push(f).drop_first() =~= fields.drop_first().push(f));
            if fields[0].name@ == name {
                assert(field_lookup(fields, name) == Some(dbf_column_type(fields[0].field_type)));
                assert(field_lookup(fields.push(f), name) == Some(
                    dbf_column_type(fields[0].field_type),
                ));
            } else {
                assert(field_lookup(fields, name) == field_lookup(fields.drop_first(), name));
                assert(field_lookup(fields.push(f), name) == field_lookup(
                    fields.drop_first().push(f),
                    name,
                ));
            }
        }
    }
}

} // verus!

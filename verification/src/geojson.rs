use vstd::prelude::*;

use crate::text::lemma_lex_trichotomy;
use crate::text::lex_lt;
use crate::text::str_eq;
use crate::text::str_lt;
use crate::types::schema_lookup;
use crate::types::schema_sorted;
use crate::types::ColumnSpec;
use crate::types::ColumnType;
use crate::types::ScanError;
use crate::scan::ScanSource;
use crate::types::CellV;
use crate::types::CellValue;
use crate::types::schemas_equal;
use crate::utils::lemma_lookup_exists;
use crate::utils::lemma_schemas_equal_lookup;
use crate::utils::lemma_sorted_same_content_equal;
use crate::utils::validate_schema;
use crate::wkb::WkbConverter;

verus! {

/// One property value as the engine reads it: the JSON value kinds, with a
/// number carried as the bit pattern of its `f64`. Arrays and objects are
/// carried only as kinds: no column type exists for them.
pub enum PropValue {
    Null,
    Boolean(bool),
    Number(u64),
    Text(String),
    Array,
    Object,
}

/// One named property of a feature.
pub struct Prop {
    pub name: String,
    pub value: PropValue,
}

/// One GeoJSON feature as the engine reads it: its geometry object, if
/// any, and its properties in document order.
pub struct GeoFeature {
    pub geometry: Option<geojson::Geometry>,
    pub properties: Vec<Prop>,
}

/// One file's worth of parsed features.
pub struct GeoJsonDataSource {
    pub features: Vec<GeoFeature>,
    pub filename: String,
}

/// The canonical type a JSON value kind maps to: booleans to Boolean,
/// numbers to Double (JSON numbers carry no reliable integer marker),
/// strings to Varchar. Null establishes nothing; arrays and objects have
/// no mapping.
pub open spec fn json_value_type(v: PropValue) -> Option<ColumnType> {
    match v {
        PropValue::Boolean(_) => Some(ColumnType::Boolean),
        PropValue::Number(_) => Some(ColumnType::Double),
        PropValue::Text(_) => Some(ColumnType::Varchar),
        _ => None,
    }
}

/// A non-null value that still maps to no column type: an array or object.
pub open spec fn prop_unsupported(v: PropValue) -> bool {
    !(v is Null) && json_value_type(v) is None
}

/// Maps one property value to its column type; `Err` exactly where no
/// mapping exists (null as well: callers must treat null as absence
/// before asking for a type).
pub fn column_type_of_value(v: &PropValue) -> (r: Result<ColumnType, ScanError>)
    ensures
        json_value_type(*v) matches Some(t) ==> r == Ok::<ColumnType, ScanError>(t),
        json_value_type(*v) is None ==> r matches Err(ScanError::UnsupportedType(_)),
{
    match v {
        PropValue::Boolean(_) => Ok(ColumnType::Boolean),
        PropValue::Number(_) => Ok(ColumnType::Double),
        PropValue::Text(_) => Ok(ColumnType::Varchar),
        PropValue::Null => Err(ScanError::UnsupportedType(String::from_str("null"))),
        PropValue::Array => Err(ScanError::UnsupportedType(String::from_str("array"))),
        PropValue::Object => Err(ScanError::UnsupportedType(String::from_str("object"))),
    }
}

/// How many features the schema sample takes from a file of `n` features.
pub open spec fn sample_size(n: int) -> int {
    if n < 100 {
        n
    } else {
        100
    }
}

/// The property occurrences of the first `n` features, flattened in
/// feature order then document order.
pub open spec fn occs_of(features: Seq<GeoFeature>, n: int) -> Seq<Prop>
    decreases n,
{
    if n <= 0 {
        Seq::empty()
    } else {
        occs_of(features, n - 1) + features[n - 1].properties@
    }
}

/// The occurrences the schema sample of a file sees.
pub open spec fn sample_occs(src: GeoJsonDataSource) -> Seq<Prop> {
    occs_of(src.features@, sample_size(src.features@.len() as int))
}

/// The type of a name as inference sees it: that of the name's first
/// non-null occurrence.
pub open spec fn first_type(occ: Seq<Prop>, name: Seq<char>) -> Option<ColumnType>
    decreases occ.len(),
{
    if occ.len() == 0 {
        None
    } else if occ[0].name@ == name && !(occ[0].value is Null) {
        json_value_type(occ[0].value)
    } else {
        first_type(occ.drop_first(), name)
    }
}

/// The first occurrence whose value defeats the type mapping, if any.
pub open spec fn first_bad(occ: Seq<Prop>) -> Option<Prop>
    decreases occ.len(),
{
    if occ.len() == 0 {
        None
    } else if prop_unsupported(occ[0].value) {
        Some(occ[0])
    } else {
        first_bad(occ.drop_first())
    }
}

/// What appending one occurrence does to inference: a name already decided
/// stays decided; an undecided name is decided by the new occurrence if it
/// matches and is non-null.
proof fn lemma_first_type_push(occ: Seq<Prop>, p: Prop, name: Seq<char>)
    requires
        first_bad(occ) is None,
    ensures
        first_type(occ, name) is Some ==> first_type(occ.push(p), name) == first_type(occ, name),
        first_type(occ, name) is None && p.name@ == name && !(p.value is Null) ==> first_type(
            occ.push(p),
            name,
        ) == json_value_type(p.value),
        first_type(occ, name) is None && !(p.name@ == name && !(p.value is Null)) ==> first_type(
            occ.push(p),
            name,
        ) is None,
    decreases occ.len(),
{
    if occ.len() == 0 {
        assert(occ.push(p)[0] == p);
        assert(occ.push(p).drop_first() =~= Seq::<Prop>::empty());
        assert(first_type(Seq::<Prop>::empty(), name) is None);
    } else {
        assert(occ.push(p)[0] == occ[0]);
        assert(occ.push(p).drop_first() =~= occ.drop_first().push(p));
        lemma_first_type_push(occ.drop_first(), p, name);
        if occ[0].name@ == name && !(occ[0].value is Null) {
            assert(!prop_unsupported(occ[0].value));
            assert(first_type(occ, name) == json_value_type(occ[0].value));
            assert(first_type(occ, name) is Some);
            assert(first_type(occ.push(p), name) == json_value_type(occ[0].value));
        } else {
            assert(first_type(occ, name) == first_type(occ.drop_first(), name));
            assert(first_type(occ.push(p), name) == first_type(occ.drop_first().push(p), name));
        }
    }
}

/// The same, for the first defeating occurrence.
proof fn lemma_first_bad_push(occ: Seq<Prop>, p: Prop)
    ensures
        first_bad(occ) is Some ==> first_bad(occ.push(p)) == first_bad(occ),
        first_bad(occ) is None && prop_unsupported(p.value) ==> first_bad(occ.push(p)) == Some(p),
        first_bad(occ) is None && !prop_unsupported(p.value) ==> first_bad(occ.push(p)) is None,
    decreases occ.len(),
{
    if occ.len() == 0 {
        assert(occ.push(p)[0] == p);
        assert(occ.push(p).drop_first() =~= Seq::<Prop>::empty());
        assert(first_bad(Seq::<Prop>::empty()) is None);
    } else {
        assert(occ.push(p)[0] == occ[0]);
        assert(occ.push(p).drop_first() =~= occ.drop_first().push(p));
        lemma_first_bad_push(occ.drop_first(), p);
    }
}

/// The property occurrences of features `i` to `n` (exclusive), flattened.
pub open spec fn occs_range(features: Seq<GeoFeature>, i: int, n: int) -> Seq<Prop>
    decreases n - i,
{
    if i >= n {
        Seq::empty()
    } else {
        features[i].properties@ + occs_range(features, i + 1, n)
    }
}

proof fn lemma_occs_range_snoc(features: Seq<GeoFeature>, i: int, n: int)
    requires
        i < n,
    ensures
        occs_range(features, i, n) == occs_range(features, i, n - 1) + features[n - 1].properties@,
    decreases n - i,
{
    if i == n - 1 {
        assert(occs_range(features, i, n - 1) =~= Seq::<Prop>::empty());
        assert(occs_range(features, n, n) =~= Seq::<Prop>::empty());
        assert(features[i].properties@ + occs_range(features, i + 1, n) =~= occs_range(
            features,
            i,
            n - 1,
        ) + features[n - 1].properties@);
    } else {
        lemma_occs_range_snoc(features, i + 1, n);
        assert(features[i].properties@ + (occs_range(features, i + 1, n - 1) + features[n
            - 1].properties@) =~= (features[i].properties@ + occs_range(features, i + 1, n - 1))
            + features[n - 1].properties@);
    }
}

/// The sample's occurrences split at feature `i`.
proof fn lemma_occs_split(features: Seq<GeoFeature>, i: int, n: int)
    requires
        0 <= i <= n,
    ensures
        occs_of(features, n) == occs_of(features, i) + occs_range(features, i, n),
    decreases n - i,
{
    if i == n {
        assert(occs_of(features, n) + occs_range(features, n, n) =~= occs_of(features, n));
    } else {
        lemma_occs_split(features, i, n - 1);
        lemma_occs_range_snoc(features, i, n);
        assert((occs_of(features, i) + occs_range(features, i, n - 1)) + features[n
            - 1].properties@ =~= occs_of(features, i) + (occs_range(features, i, n - 1)
            + features[n - 1].properties@));
    }
}

/// The first defeating occurrence of a concatenation: the left part
/// answers first.
proof fn lemma_first_bad_concat(a: Seq<Prop>, b: Seq<Prop>)
    ensures
        first_bad(a + b) == if first_bad(a) is Some {
            first_bad(a)
        } else {
            first_bad(b)
        },
    decreases a.len(),
{
    if a.len() == 0 {
        assert(a + b =~= b);
    } else {
        assert((a + b)[0] == a[0]);
        assert((a + b).drop_first() =~= a.drop_first() + b);
        lemma_first_bad_concat(a.drop_first(), b);
    }
}

/// Whether the schema already has a column of this name.
fn contains_name(specs: &Vec<ColumnSpec>, name: &str) -> (r: bool)
    ensures
        r == (schema_lookup(specs@, name@) is Some),
{
    let mut k: usize = 0;
    while k < specs.len()
        invariant
            k <= specs@.len(),
            forall|m: int| 0 <= m < k ==> specs@[m].name@ != name@,
        decreases specs@.len() - k,
    {
        if str_eq(specs[k].name.as_str(), name) {
            proof {
                lemma_lookup_exists(specs@, name@);
            }
            return true;
        }
        k = k + 1;
    }
    proof {
        lemma_lookup_exists(specs@, name@);
    }
    false
}

/// How lookup reads a concatenation: the left part answers first.
proof fn lemma_lookup_concat(a: Seq<ColumnSpec>, b: Seq<ColumnSpec>, name: Seq<char>)
    ensures
        schema_lookup(a + b, name) == if schema_lookup(a, name) is Some {
            schema_lookup(a, name)
        } else {
            schema_lookup(b, name)
        },
    decreases a.len(),
{
    if a.len() == 0 {
        assert(a + b =~= b);
    } else {
        assert((a + b)[0] == a[0]);
        assert((a + b).drop_first() =~= a.drop_first() + b);
        lemma_lookup_concat(a.drop_first(), b, name);
    }
}

/// Puts a new column into a sorted schema, keeping it sorted; every other
/// name keeps its type.
pub(crate) fn insert_sorted(specs: &mut Vec<ColumnSpec>, spec: ColumnSpec)
    requires
        schema_sorted(old(specs)@),
        schema_lookup(old(specs)@, spec.name@) is None,
    ensures
        schema_sorted(final(specs)@),
        forall|name: Seq<char>| #![auto]
            schema_lookup(final(specs)@, name) == if name == spec.name@ {
                Some(spec.column_type)
            } else {
                schema_lookup(old(specs)@, name)
            },
{
    let ghost s0 = specs@;
    let mut k: usize = 0;
    while k < specs.len() && !str_lt(spec.name.as_str(), specs[k].name.as_str())
        invariant
            k <= s0.len(),
            specs@ == s0,
            forall|m: int| 0 <= m < k ==> !lex_lt(spec.name@, s0[m].name@),
        decreases s0.len() - k,
    {
        k = k + 1;
    }
    proof {
        lemma_lookup_exists(s0, spec.name@);
        assert(forall|m: int| 0 <= m < s0.len() ==> s0[m].name@ != spec.name@);
        assert forall|m: int| 0 <= m < k implies lex_lt(s0[m].name@, spec.name@) by {
            lemma_lex_trichotomy(spec.name@, s0[m].name@);
        }
        assert(k < s0.len() ==> lex_lt(spec.name@, s0[k as int].name@));
    }
    let ghost name_new = spec.name@;
    let ghost ty_new = spec.column_type;
    let ghost spec0 = spec;
    specs.insert(k, spec);
    proof {
        let s1 = specs@;
        assert(s1 =~= s0.take(k as int).push(spec0) + s0.skip(k as int));
        // sortedness of the result
        assert forall|i: int, j: int| 0 <= i < j < s1.len() implies lex_lt(
            s1[i].name@,
            s1[j].name@,
        ) by {
            let ki = k as int;
            if i < ki && j < ki {
            } else if i < ki && j == ki {
            } else if i < ki && j > ki {
            } else if i == ki && j > ki {
                if j > ki + 1 {
                    crate::text::lemma_lex_transitive(name_new, s0[ki].name@, s0[j - 1].name@);
                }
            } else {
            }
        }
        // lookup characterization
        assert forall|name: Seq<char>| #![auto] schema_lookup(s1, name) == (if name == name_new {
            Some(ty_new)
        } else {
            schema_lookup(s0, name)
        }) by {
            let single = Seq::<ColumnSpec>::empty().push(spec0);
            let left = s0.take(k as int).push(spec0);
            let right = s0.skip(k as int);
            assert(single.len() == 1 && single[0] == spec0);
            assert(single.drop_first() =~= Seq::<ColumnSpec>::empty());
            assert(schema_lookup(Seq::<ColumnSpec>::empty(), name) is None);
            if name_new == name {
                assert(schema_lookup(single, name) == Some(ty_new));
            } else {
                assert(schema_lookup(single, name) is None);
            }
            lemma_lookup_concat(left, right, name);
            lemma_lookup_concat(s0.take(k as int), right, name);
            assert(s0.take(k as int) + right =~= s0);
            lemma_lookup_concat(s0.take(k as int), single, name);
            assert(s0.take(k as int) + single =~= left);
            if name == name_new {
                assert(schema_lookup(s0.take(k as int), name) is None) by {
                    lemma_lookup_exists(s0.take(k as int), name);
                }
            }
        }
    }
}

/// Builds the sample schema of one file: for each property name, the type
/// of its first non-null occurrence among the sampled features, the result
/// in canonical (name-sorted) order. Any sampled array or object value is
/// fatal; its property name is reported.
pub fn infer_schema(features: &Vec<GeoFeature>) -> (r: Result<Vec<ColumnSpec>, ScanError>)
    ensures
        ({
            let occ = occs_of(features@, sample_size(features@.len() as int));
            match r {
                Ok(specs) => {
                    &&& first_bad(occ) is None
                    &&& schema_sorted(specs@)
                    &&& forall|name: Seq<char>| #![auto]
                        schema_lookup(specs@, name) == first_type(occ, name)
                },
                Err(e) => {
                    &&& first_bad(occ) matches Some(p)
                    &&& e matches ScanError::UnsupportedType(s) && s@ == p.name@
                },
            }
        }),
{
    let n = features.len();
    let sample: usize = if n < 100 {
        n
    } else {
        100
    };
    let mut specs: Vec<ColumnSpec> = Vec::new();
    let mut i: usize = 0;
    proof {
        assert(occs_of(features@, 0) =~= Seq::<Prop>::empty());
    }
    while i < sample
        invariant
            i <= sample,
            sample == sample_size(features@.len() as int),
            sample <= features@.len(),
            schema_sorted(specs@),
            first_bad(occs_of(features@, i as int)) is None,
            forall|name: Seq<char>| #![auto]
                schema_lookup(specs@, name) == first_type(occs_of(features@, i as int), name),
        decreases sample - i,
    {
        let props = &features[i].properties;
        let ghost occ_base = occs_of(features@, i as int);
        let mut j: usize = 0;
        while j < props.len()
            invariant
                j <= props@.len(),
                props == &features@[i as int].properties,
                i < sample,
                sample == sample_size(features@.len() as int),
                sample <= features@.len(),
                occ_base == occs_of(features@, i as int),
                schema_sorted(specs@),
                first_bad(occ_base + props@.subrange(0, j as int)) is None,
                forall|name: Seq<char>| #![auto]
                    schema_lookup(specs@, name) == first_type(
                        occ_base + props@.subrange(0, j as int),
                        name,
                    ),
            decreases props@.len() - j,
        {
            let p = &props[j];
            let ghost occ_cur = occ_base + props@.subrange(0, j as int);
            proof {
                assert(occ_base + props@.subrange(0, j + 1) =~= occ_cur.push(props@[j as int]));
                lemma_first_bad_push(occ_cur, props@[j as int]);
            }
            let is_null = match &p.value {
                PropValue::Null => true,
                _ => false,
            };
            if !is_null {
                let ty = match column_type_of_value(&p.value) {
                    Ok(ty) => ty,
                    Err(_) => {
                        proof {
                            let f = features@;
                            let m = sample as int;
                            let pv = props@[j as int];
                            let rest = props@.subrange(j + 1, props@.len() as int) + occs_range(
                                f,
                                i + 1,
                                m,
                            );
                            lemma_occs_split(f, i + 1, m);
                            assert(occs_of(f, i + 1) == occs_of(f, i as int) + f[
                                i as int
                            ].properties@);
                            assert(occs_of(f, m) =~= occ_cur.push(pv) + rest);
                            lemma_first_bad_concat(occ_cur.push(pv), rest);
                            assert(first_bad(occ_cur.push(pv)) == Some(pv));
                            assert(first_bad(occs_of(f, m)) == Some(pv));
                        }
                        return Err(ScanError::UnsupportedType(p.name.clone()));
                    },
                };
                if !contains_name(&specs, p.name.as_str()) {
                    insert_sorted(&mut specs, ColumnSpec { name: p.name.clone(), column_type: ty });
                }
            }
            proof {
                lemma_first_type_push_all(occ_cur, props@[j as int]);
            }
            j = j + 1;
        }
        proof {
            assert(props@.subrange(0, props@.len() as int) =~= props@);
            assert(occs_of(features@, i + 1) == occs_of(features@, i as int) + features@[
                i as int
            ].properties@);
        }
        i = i + 1;
    }
    proof {
        assert(i == sample);
    }
    Ok(specs)
}

/// Instantiates the push lemma for every name at once, the shape the loop
/// invariant needs.
proof fn lemma_first_type_push_all(occ: Seq<Prop>, p: Prop)
    requires
        first_bad(occ) is None,
    ensures
        forall|name: Seq<char>| #![auto]
            first_type(occ, name) is Some ==> first_type(occ.push(p), name) == first_type(
                occ,
                name,
            ),
        forall|name: Seq<char>| #![auto]
            first_type(occ, name) is None && p.name@ == name && !(p.value is Null) ==> first_type(
                occ.push(p),
                name,
            ) == json_value_type(p.value),
        forall|name: Seq<char>| #![auto]
            first_type(occ, name) is None && !(p.name@ == name && !(p.value is Null))
                ==> first_type(occ.push(p), name) is None,
{
    assert forall|name: Seq<char>| #![auto]
        (first_type(occ, name) is Some ==> first_type(occ.push(p), name) == first_type(occ, name))
            && (first_type(occ, name) is None && p.name@ == name && !(p.value is Null)
            ==> first_type(occ.push(p), name) == json_value_type(p.value)) && (first_type(
            occ,
            name,
        ) is None && !(p.name@ == name && !(p.value is Null)) ==> first_type(
            occ.push(p),
            name,
        ) is None) by {
        lemma_first_type_push(occ, p, name);
    }
}

/// The first property of this name in document order, if any.
pub open spec fn lookup_prop(props: Seq<Prop>, name: Seq<char>) -> Option<PropValue>
    decreases props.len(),
{
    if props.len() == 0 {
        None
    } else if props[0].name@ == name {
        Some(props[0].value)
    } else {
        lookup_prop(props.drop_first(), name)
    }
}

/// The cell one declared column receives from a feature's properties: an
/// absent or null property is a NULL cell; a value of the declared kind is
/// itself; anything else defeats the mapping (`None`), which is fatal.
pub open spec fn cell_for(props: Seq<Prop>, col: ColumnSpec) -> Option<CellV> {
    match lookup_prop(props, col.name@) {
        None => Some(CellV::Null),
        Some(v) => match v {
            PropValue::Null => Some(CellV::Null),
            PropValue::Boolean(b) => if col.column_type == ColumnType::Boolean {
                Some(CellV::Boolean(b))
            } else {
                None
            },
            PropValue::Number(bits) => if col.column_type == ColumnType::Double {
                Some(CellV::Double(bits))
            } else {
                None
            },
            PropValue::Text(s) => if col.column_type == ColumnType::Varchar {
                Some(CellV::Text(s@))
            } else {
                None
            },
            PropValue::Array => None,
            PropValue::Object => None,
        },
    }
}

/// Finds the first property of this name.
fn get_prop<'a>(props: &'a Vec<Prop>, name: &str) -> (r: Option<&'a PropValue>)
    ensures
        match lookup_prop(props@, name@) {
            Some(v) => r matches Some(rv) && *rv == v,
            None => r is None,
        },
{
    let mut k: usize = 0;
    proof {
        assert(props@.skip(0) =~= props@);
    }
    while k < props.len()
        invariant
            k <= props@.len(),
            forall|m: int| 0 <= m < k ==> props@[m].name@ != name@,
            lookup_prop(props@, name@) == lookup_prop(props@.skip(k as int), name@),
        decreases props@.len() - k,
    {
        proof {
            assert(props@.skip(k as int)[0] == props@[k as int]);
            assert(props@.skip(k as int).drop_first() =~= props@.skip(k + 1));
        }
        if str_eq(props[k].name.as_str(), name) {
            return Some(&props[k].value);
        }
        k = k + 1;
    }
    proof {
        assert(props@.skip(k as int).len() == 0);
    }
    None
}

/// One row's worth of one declared column, from a feature's properties.
fn cell_for_column(props: &Vec<Prop>, col: &ColumnSpec) -> (r: Result<CellValue, ScanError>)
    ensures
        match cell_for(props@, *col) {
            Some(cv) => r matches Ok(c) && c.deep_view() == cv,
            None => r matches Err(ScanError::UnsupportedType(_)),
        },
{
    match get_prop(props, col.name.as_str()) {
        None => Ok(CellValue::Null),
        Some(v) => match v {
            PropValue::Null => Ok(CellValue::Null),
            PropValue::Boolean(b) => {
                if col.column_type == ColumnType::Boolean {
                    Ok(CellValue::Boolean(*b))
                } else {
                    Err(ScanError::UnsupportedType(col.name.clone()))
                }
            },
            PropValue::Number(bits) => {
                if col.column_type == ColumnType::Double {
                    Ok(CellValue::Double(*bits))
                } else {
                    Err(ScanError::UnsupportedType(col.name.clone()))
                }
            },
            PropValue::Text(t) => {
                if col.column_type == ColumnType::Varchar {
                    Ok(CellValue::Text(t.clone()))
                } else {
                    Err(ScanError::UnsupportedType(col.name.clone()))
                }
            },
            PropValue::Array => Err(ScanError::UnsupportedType(col.name.clone())),
            PropValue::Object => Err(ScanError::UnsupportedType(col.name.clone())),
        },
    }
}

/// Whether a feature list can materialize under the declared columns with
/// nothing left to the codec's discretion: every feature carries a
/// geometry, and every declared column finds a cell in every feature.
pub open spec fn source_materializable(features: Seq<GeoFeature>, specs: Seq<ColumnSpec>) -> bool {
    forall|i: int|
        0 <= i < features.len() ==> (#[trigger] features[i]).geometry is Some && forall|j: int|
            0 <= j < specs.len() ==> cell_for(features[i].properties@, specs[j]) is Some
}

/// A materialized row as the scan expects it from this adapter: the WKB
/// geometry cell first, then one cell per declared column.
pub open spec fn row_matches(row: crate::types::Row, props: Seq<Prop>, specs: Seq<ColumnSpec>) -> bool {
    &&& row.deep_view().len() == specs.len() + 1
    &&& row.deep_view()[0] is Geometry
    &&& forall|j: int|
        0 <= j < specs.len() ==> cell_for(props, specs[j]) == Some(row.deep_view()[j + 1])
}

/// Builds one output row of a feature: geometry through the codec, then
/// the declared columns in order.
fn feature_row(feature: &GeoFeature, specs: &Vec<ColumnSpec>, conv: &mut WkbConverter) -> (r:
    Result<crate::types::Row, ScanError>)
    ensures
        r matches Ok(row) ==> row_matches(row, feature.properties@, specs@),
        feature.geometry is None ==> r == Err::<crate::types::Row, ScanError>(
            ScanError::MissingGeometry,
        ),
        (feature.geometry is Some && forall|j: int|
            0 <= j < specs@.len() ==> cell_for(feature.properties@, specs@[j]) is Some) ==> (
        r is Ok || r matches Err(ScanError::CorruptGeometry(_))),
        r matches Err(e) ==> (e == ScanError::MissingGeometry || e matches
            ScanError::CorruptGeometry(_) || e matches ScanError::UnsupportedType(_)),
{
    let conv_res = conv.convert(feature);
    let wkb_bytes = match conv_res {
        Ok(b) => b,
        Err(e) => {
            return Err(e);
        },
    };
    proof {
        assert(feature.geometry is Some);
    }
    let mut row: Vec<CellValue> = Vec::new();
    row.push(CellValue::Geometry(wkb_bytes));
    let mut j: usize = 0;
    while j < specs.len()
        invariant
            feature.geometry is Some,
            j <= specs@.len(),
            row@.len() == j + 1,
            row.deep_view()[0] is Geometry,
            forall|m: int|
                0 <= m < j ==> cell_for(feature.properties@, specs@[m]) == Some(
                    row.deep_view()[m + 1],
                ),
        decreases specs@.len() - j,
    {
        let cell = match cell_for_column(&feature.properties, &specs[j]) {
            Ok(c) => c,
            Err(e) => {
                return Err(e);
            },
        };
        row.push(cell);
        j = j + 1;
    }
    Ok(row)
}

impl GeoJsonDataSource {
    /// Wraps one file's already-parsed features and infers its local
    /// schema from the sample.
    pub fn from_features(features: Vec<GeoFeature>, filename: String) -> (r: Result<
        (GeoJsonDataSource, Vec<ColumnSpec>),
        ScanError,
    >)
        ensures
            ({
                let occ = occs_of(features@, sample_size(features@.len() as int));
                match r {
                    Ok((src, specs)) => {
                        &&& src.features == features
                        &&& src.filename == filename
                        &&& first_bad(occ) is None
                        &&& schema_sorted(specs@)
                        &&& forall|name: Seq<char>| #![auto]
                            schema_lookup(specs@, name) == first_type(occ, name)
                    },
                    Err(e) => {
                        &&& first_bad(occ) matches Some(p)
                        &&& e matches ScanError::UnsupportedType(s) && s@ == p.name@
                    },
                }
            }),
    {
        let specs = match infer_schema(&features) {
            Ok(specs) => specs,
            Err(e) => {
                return Err(e);
            },
        };
        Ok((GeoJsonDataSource { features, filename }, specs))
    }

    /// Materializes this file as one scan source: every feature becomes a
    /// row under the given declared columns.
    pub fn to_scan_source(&self, specs: &Vec<ColumnSpec>) -> (r: Result<ScanSource, ScanError>)
        ensures
            r matches Ok(src) ==> {
                &&& src.filename@ == self.filename@
                &&& src.layer is None
                &&& src.rows@.len() == self.features@.len()
                &&& forall|i: int|
                    0 <= i < self.features@.len() ==> row_matches(
                        src.rows@[i],
                        self.features@[i].properties@,
                        specs@,
                    )
            },
            r matches Err(e) ==> (e == ScanError::MissingGeometry || e matches
                ScanError::CorruptGeometry(_) || e matches ScanError::UnsupportedType(_)),
            self.features@.len() == 0 ==> r is Ok,
            self.features@.len() > 0 && self.features@[0].geometry is None ==> r == Err::<
                ScanSource,
                ScanError,
            >(ScanError::MissingGeometry),
            source_materializable(self.features@, specs@) ==> (r is Ok || r matches Err(
                ScanError::CorruptGeometry(_),
            )),
    {
        let mut conv = WkbConverter::new();
        let mut rows: Vec<crate::types::Row> = Vec::new();
        let mut i: usize = 0;
        while i < self.features.len()
            invariant
                i <= self.features@.len(),
                rows@.len() == i,
                forall|m: int| 0 <= m < i ==> (#[trigger] self.features@[m]).geometry is Some,
                forall|m: int|
                    0 <= m < i ==> row_matches(
                        rows@[m],
                        self.features@[m].properties@,
                        specs@,
                    ),
            decreases self.features@.len() - i,
        {
            let row = match feature_row(&self.features[i], specs, &mut conv) {
                Ok(row) => row,
                Err(e) => {
                    proof {
                        if self.features@.len() > 0 && self.features@[0].geometry is None {
                            assert(i == 0);
                        }
                        if source_materializable(self.features@, specs@) {
                            assert((#[trigger] self.features@[i as int]).geometry is Some);
                        }
                    }
                    return Err(e);
                },
            };
            rows.push(row);
            i = i + 1;
        }
        Ok(ScanSource { filename: self.filename.clone(), layer: None, rows })
    }
}

/// Whether source `k` would infer a different schema than the first source.
pub open spec fn differs_from_first(sources: Seq<GeoJsonDataSource>, k: int) -> bool {
    exists|name: Seq<char>|
        first_type(#[trigger] sample_occs(sources[k]), name) != first_type(
            sample_occs(sources[0]),
            name,
        )
}

/// The bind-time product of the GeoJSON path: the opened sources and the
/// one unified schema they all share.
pub struct GeoJsonBindData {
    pub sources: Vec<GeoJsonDataSource>,
    pub column_specs: Vec<ColumnSpec>,
}

/// Binds a set of parsed GeoJSON files: infers the first file's schema as
/// the baseline and demands that every later file infer exactly the same
/// schema. Any disagreement, and any sampled value with no type mapping,
/// aborts the whole bind.
pub fn bind_geojson(sources: Vec<GeoJsonDataSource>) -> (r: Result<GeoJsonBindData, ScanError>)
    requires
        sources@.len() >= 1,
    ensures
        r matches Ok(bind) ==> {
            &&& bind.sources == sources
            &&& schema_sorted(bind.column_specs@)
            &&& forall|name: Seq<char>| #![auto]
                schema_lookup(bind.column_specs@, name) == first_type(
                    sample_occs(sources@[0]),
                    name,
                )
            &&& forall|k: int, name: Seq<char>| #![auto]
                0 <= k < sources@.len() ==> first_type(sample_occs(sources@[k]), name)
                    == schema_lookup(bind.column_specs@, name)
            &&& forall|k: int| #![auto]
                0 <= k < sources@.len() ==> first_bad(sample_occs(sources@[k])) is None
        },
        r matches Err(e) ==> (e matches ScanError::UnsupportedType(_) || e matches
            ScanError::SchemaMismatch { filename: _, detail: _ }),
        r matches Err(e) ==> e matches ScanError::UnsupportedType(_) ==> exists|k: int|
            0 <= k < sources@.len() && first_bad(#[trigger] sample_occs(sources@[k])) is Some && (
            forall|m: int| 0 <= m < k ==> first_bad(sample_occs(sources@[m])) is None),
        r matches Err(e) ==> e matches ScanError::SchemaMismatch { filename, detail } ==> exists|
            k: int,
        |
            1 <= k < sources@.len() && filename@ == sources@[k].filename@ && #[trigger] differs_from_first(
                sources@,
                k,
            ) && (forall|m: int| 1 <= m < k ==> !differs_from_first(sources@, m)),
{
    let base = match infer_schema(&sources[0].features) {
        Ok(specs) => specs,
        Err(e) => {
            proof {
                assert(first_bad(sample_occs(sources@[0])) is Some);
            }
            return Err(e);
        },
    };
    let mut k: usize = 1;
    while k < sources.len()
        invariant
            1 <= k <= sources@.len(),
            schema_sorted(base@),
            first_bad(sample_occs(sources@[0])) is None,
            forall|name: Seq<char>| #![auto]
                schema_lookup(base@, name) == first_type(sample_occs(sources@[0]), name),
            forall|m: int, name: Seq<char>| #![auto]
                0 <= m < k ==> first_type(sample_occs(sources@[m]), name) == schema_lookup(
                    base@,
                    name,
                ),
            forall|m: int| #![auto] 0 <= m < k ==> first_bad(sample_occs(sources@[m])) is None,
        decreases sources@.len() - k,
    {
        let local = match infer_schema(&sources[k].features) {
            Ok(specs) => specs,
            Err(e) => {
                proof {
                    assert(first_bad(sample_occs(sources@[k as int])) is Some);
                }
                return Err(e);
            },
        };
        match validate_schema(&base, &local, sources[k].filename.as_str()) {
            Ok(()) => {
                proof {
                    lemma_schemas_equal_lookup(base@, local@);
                }
            },
            Err(e) => {
                proof {
                    let ghost_k = k as int;
                    assert(differs_from_first(sources@, ghost_k)) by {
                        if forall|name: Seq<char>| #[trigger] first_type(
                            sample_occs(sources@[ghost_k]),
                            name,
                        ) == first_type(sample_occs(sources@[0]), name) {
                            assert forall|name: Seq<char>| #[trigger] schema_lookup(base@, name)
                                == schema_lookup(local@, name) by {
                                assert(first_type(sample_occs(sources@[ghost_k]), name)
                                    == first_type(sample_occs(sources@[0]), name));
                            }
                            lemma_sorted_same_content_equal(base@, local@);
                            assert(schemas_equal(base@, local@));
                            assert(false);
                        }
                    }
                    assert forall|m: int| 1 <= m < ghost_k implies !differs_from_first(
                        sources@,
                        m,
                    ) by {
                        if differs_from_first(sources@, m) {
                            let name = choose|name: Seq<char>|
                                first_type(sample_occs(sources@[m]), name) != first_type(
                                    sample_occs(sources@[0]),
                                    name,
                                );
                            assert(first_type(sample_occs(sources@[m]), name) == schema_lookup(
                                base@,
                                name,
                            ));
                            assert(first_type(sample_occs(sources@[0]), name) == schema_lookup(
                                base@,
                                name,
                            ));
                            assert(false);
                        }
                    }
                }
                return Err(e);
            },
        }
        k = k + 1;
    }
    Ok(GeoJsonBindData { sources, column_specs: base })
}

impl GeoJsonBindData {
    /// Materializes every bound file as a scan source, in discovery order.
    pub fn scan_sources(&self) -> (r: Result<Vec<ScanSource>, ScanError>)
        ensures
            r matches Ok(v) ==> {
                &&& v@.len() == self.sources@.len()
                &&& forall|k: int| #![auto]
                    0 <= k < v@.len() ==> {
                        &&& v@[k].filename@ == self.sources@[k].filename@
                        &&& v@[k].layer is None
                        &&& v@[k].rows@.len() == self.sources@[k].features@.len()
                        &&& forall|i: int|
                            0 <= i < v@[k].rows@.len() ==> row_matches(
                                v@[k].rows@[i],
                                self.sources@[k].features@[i].properties@,
                                self.column_specs@,
                            )
                    }
            },
            r matches Err(e) ==> (e == ScanError::MissingGeometry || e matches
                ScanError::CorruptGeometry(_) || e matches ScanError::UnsupportedType(_)),
            self.sources@.len() == 0 ==> r is Ok,
            (forall|k: int|
                0 <= k < self.sources@.len() ==> source_materializable(
                    (#[trigger] self.sources@[k]).features@,
                    self.column_specs@,
                )) ==> (r is Ok || r matches Err(ScanError::CorruptGeometry(_))),
    {
        let mut out: Vec<ScanSource> = Vec::new();
        let mut k: usize = 0;
        while k < self.sources.len()
            invariant
                k <= self.sources@.len(),
                out@.len() == k,
                forall|m: int| #![auto]
                    0 <= m < k ==> {
                        &&& out@[m].filename@ == self.sources@[m].filename@
                        &&& out@[m].layer is None
                        &&& out@[m].rows@.len() == self.sources@[m].features@.len()
                        &&& forall|i: int|
                            0 <= i < out@[m].rows@.len() ==> row_matches(
                                out@[m].rows@[i],
                                self.sources@[m].features@[i].properties@,
                                self.column_specs@,
                            )
                    },
            decreases self.sources@.len() - k,
        {
            let src = match self.sources[k].to_scan_source(&self.column_specs) {
                Ok(src) => src,
                Err(e) => {
                    proof {
                        if forall|m: int|
                            0 <= m < self.sources@.len() ==> source_materializable(
                                (#[trigger] self.sources@[m]).features@,
                                self.column_specs@,
                            ) {
                            assert(source_materializable(
                                (#[trigger] self.sources@[k as int]).features@,
                                self.column_specs@,
                            ));
                        }
                    }
                    return Err(e);
                },
            };
            out.push(src);
            k = k + 1;
        }
        Ok(out)
    }
}

} // verus!

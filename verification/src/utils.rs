use vstd::prelude::*;

use crate::text::lemma_lex_transitive;
use crate::text::lemma_lex_trichotomy;
use crate::text::lex_lt;
use crate::text::str_eq;
use crate::text::str_lt;
use crate::types::schema_lookup;
use crate::types::schema_sorted;
use crate::types::schemas_equal;
use crate::types::ColumnSpec;
use crate::types::MismatchKind;
use crate::types::ScanError;

verus! {

/// The extension of a path, `/`-separated: the part of the final component
/// after its last `.`, provided a character stands before that dot within
/// the component.
pub open spec fn extension_of(p: Seq<char>) -> Option<Seq<char>>
    decreases p.len(),
{
    if p.len() == 0 {
        None
    } else if p.last() == '/' {
        None
    } else if p.last() == '.' {
        if p.len() >= 2 && p[p.len() - 2] != '/' {
            Some(Seq::empty())
        } else {
            None
        }
    } else {
        match extension_of(p.drop_last()) {
            Some(e) => Some(e.push(p.last())),
            None => None,
        }
    }
}

/// Peeling plain characters off the end: the extension of `p` is the
/// extension found up to `k` followed by the characters from `k` on, as
/// long as nothing from `k` on is a `.` or `/`.
proof fn lemma_ext_suffix(p: Seq<char>, k: int)
    requires
        0 <= k <= p.len(),
        forall|j: int| k <= j < p.len() ==> p[j] != '.' && p[j] != '/',
    ensures
        extension_of(p) is Some <==> extension_of(p.take(k)) is Some,
        extension_of(p) is Some ==> extension_of(p) == Some(
            extension_of(p.take(k)).unwrap() + p.skip(k),
        ),
    decreases p.len() - k,
{
    if k == p.len() {
        assert(p.take(k) =~= p);
        if extension_of(p) is Some {
            assert(extension_of(p.take(k)).unwrap() + p.skip(k) =~= extension_of(p).unwrap());
        }
    } else {
        lemma_ext_suffix(p, k + 1);
        assert(p.take(k + 1).drop_last() =~= p.take(k));
        assert(p.take(k + 1).last() == p[k]);
        if extension_of(p) is Some {
            assert(extension_of(p.take(k + 1)) == Some(
                extension_of(p.take(k)).unwrap().push(p[k]),
            ));
            assert(extension_of(p.take(k)).unwrap().push(p[k]) + p.skip(k + 1) =~= extension_of(
                p.take(k),
            ).unwrap() + p.skip(k));
        }
    }
}

/// Decides whether the path's extension is exactly `ext` (an extension-free
/// name, a trailing separator and a hidden file all say no).
pub fn has_extension_is(path: &str, ext: &str) -> (r: bool)
    ensures
        r == (extension_of(path@) == Some(ext@)),
{
    let n = path.unicode_len();
    let mut i: usize = n;
    loop
        invariant
            0 <= i <= n,
            n == path@.len(),
            forall|j: int| i <= j < n ==> path@[j] != '.' && path@[j] != '/',
        ensures
            0 <= i <= n,
            forall|j: int| i <= j < n ==> path@[j] != '.' && path@[j] != '/',
            i == 0 || path@[i - 1] == '.' || path@[i - 1] == '/',
        decreases i,
    {
        if i == 0 {
            break ;
        }
        let c = path.get_char(i - 1);
        if c == '.' || c == '/' {
            break ;
        }
        i = i - 1;
    }
    proof {
        lemma_ext_suffix(path@, i as int);
    }
    if i == 0 {
        proof {
            assert(path@.take(0).len() == 0);
            assert(extension_of(path@.take(0)) is None);
        }
        return false;
    }
    let c = path.get_char(i - 1);
    if c == '/' {
        proof {
            assert(path@.take(i as int).last() == '/');
            assert(extension_of(path@.take(i as int)) is None);
        }
        return false;
    }
    // the character before position i is the last dot of the final component
    let valid = if i >= 2 {
        path.get_char(i - 2) != '/'
    } else {
        false
    };
    proof {
        assert(path@.take(i as int).last() == '.');
        if valid {
            assert(path@.take(i as int).len() >= 2);
            assert(path@.take(i as int)[i - 2] != '/');
            assert(extension_of(path@.take(i as int)) == Some(Seq::<char>::empty()));
        } else {
            assert(extension_of(path@.take(i as int)) is None);
        }
    }
    if !valid {
        return false;
    }
    let suffix = path.substring_char(i, n);
    let r = str_eq(suffix, ext);
    proof {
        assert(Seq::<char>::empty() + path@.skip(i as int) =~= path@.skip(i as int));
        assert(suffix@ == path@.skip(i as int));
    }
    r
}

/// Says whether the path names a GeoJSON file, by its extension.
pub fn is_geojson(path: &str) -> (r: bool)
    ensures
        r == (extension_of(path@) == Some("geojson"@)),
{
    has_extension_is(path, "geojson")
}

/// Says whether the path names a GeoPackage file, by its extension.
pub fn is_gpkg(path: &str) -> (r: bool)
    ensures
        r == (extension_of(path@) == Some("gpkg"@)),
{
    has_extension_is(path, "gpkg")
}

/// Replaces a leading `~` with the given home directory. The caller supplies
/// what stands for the user's home; with none, or without the leading `~`,
/// the path comes back unchanged.
pub fn expand_tilde_with(path: &str, home: Option<&str>) -> (r: String)
    ensures
        (path@.len() > 0 && path@[0] == '~' && home is Some) ==> r@ == home.unwrap()@
            + path@.skip(1),
        (path@.len() == 0 || path@[0] != '~' || home is None) ==> r@ == path@,
{
    let n = path.unicode_len();
    if n > 0 && path.get_char(0) == '~' {
        match home {
            Some(h) => {
                let mut out = h.to_owned();
                let tail = path.substring_char(1, n);
                out.append(tail);
                out
            },
            None => path.to_owned(),
        }
    } else {
        path.to_owned()
    }
}

/// A name is found in a schema exactly when some column carries it.
pub proof fn lemma_lookup_exists(specs: Seq<ColumnSpec>, name: Seq<char>)
    ensures
        (schema_lookup(specs, name) is Some) <==> (exists|i: int|
            0 <= i < specs.len() && specs[i].name@ == name),
    decreases specs.len(),
{
    if specs.len() > 0 {
        if specs[0].name@ == name {
        } else {
            lemma_lookup_exists(specs.drop_first(), name);
            if schema_lookup(specs, name) is Some {
                let i = choose|i: int|
                    0 <= i < specs.drop_first().len() && specs.drop_first()[i].name@ == name;
                assert(specs[i + 1].name@ == name);
            }
            if exists|i: int| 0 <= i < specs.len() && specs[i].name@ == name {
                let i = choose|i: int| 0 <= i < specs.len() && specs[i].name@ == name;
                assert(i >= 1);
                assert(specs.drop_first()[i - 1].name@ == name);
            }
        }
    }
}

/// Two schemas that agree column for column answer every lookup alike.
pub proof fn lemma_schemas_equal_lookup(a: Seq<ColumnSpec>, b: Seq<ColumnSpec>)
    requires
        schemas_equal(a, b),
    ensures
        forall|name: Seq<char>| #[trigger] schema_lookup(a, name) == schema_lookup(b, name),
    decreases a.len(),
{
    if a.len() > 0 {
        assert(schemas_equal(a.drop_first(), b.drop_first())) by {
            assert(forall|i: int|
                0 <= i < a.len() - 1 ==> a.drop_first()[i] == a[i + 1] && b.drop_first()[i] == b[i
                    + 1]);
        }
        lemma_schemas_equal_lookup(a.drop_first(), b.drop_first());
        assert forall|name: Seq<char>| #[trigger] schema_lookup(a, name) == schema_lookup(
            b,
            name,
        ) by {
            assert(a[0].name@ == b[0].name@ && a[0].column_type == b[0].column_type);
            assert(schema_lookup(a.drop_first(), name) == schema_lookup(b.drop_first(), name));
        }
    }
}

/// Canonical order leaves no freedom: two schemas, each sorted by name, that
/// declare the same type for the same names are equal column for column.
/// This is why sources whose columns arrive in different orders still unify.
pub proof fn lemma_sorted_same_content_equal(a: Seq<ColumnSpec>, b: Seq<ColumnSpec>)
    requires
        schema_sorted(a),
        schema_sorted(b),
        forall|name: Seq<char>| #[trigger] schema_lookup(a, name) == schema_lookup(b, name),
    ensures
        schemas_equal(a, b),
    decreases a.len(),
{
    if a.len() == 0 {
        if b.len() > 0 {
            assert(schema_lookup(b, b[0].name@) is Some);
            assert(false);
        }
    } else {
        if b.len() == 0 {
            assert(schema_lookup(a, a[0].name@) is Some);
            assert(false);
        }
        let a0 = a[0].name@;
        let b0 = b[0].name@;
        lemma_lex_trichotomy(a0, b0);
        if lex_lt(a0, b0) {
            assert(schema_lookup(a, a0) is Some);
            lemma_lookup_exists(b, a0);
            let i = choose|i: int| 0 <= i < b.len() && b[i].name@ == a0;
            if i == 0 {
                lemma_lex_trichotomy(a0, a0);
            } else {
                assert(lex_lt(b0, b[i].name@));
                lemma_lex_transitive(a0, b0, a0);
                lemma_lex_trichotomy(a0, a0);
            }
            assert(false);
        }
        if lex_lt(b0, a0) {
            assert(schema_lookup(b, b0) is Some);
            lemma_lookup_exists(a, b0);
            let i = choose|i: int| 0 <= i < a.len() && a[i].name@ == b0;
            if i == 0 {
                lemma_lex_trichotomy(b0, b0);
            } else {
                assert(lex_lt(a0, a[i].name@));
                lemma_lex_transitive(b0, a0, b0);
                lemma_lex_trichotomy(b0, b0);
            }
            assert(false);
        }
        assert(a0 == b0);
        assert(schema_lookup(a, a0) == Some(a[0].column_type));
        assert(schema_lookup(b, a0) == Some(b[0].column_type));
        let at = a.drop_first();
        let bt = b.drop_first();
        assert(schema_sorted(at)) by {
            assert(forall|i: int, j: int|
                0 <= i < j < at.len() ==> at[i] == a[i + 1] && at[j] == a[j + 1]);
        }
        assert(schema_sorted(bt)) by {
            assert(forall|i: int, j: int|
                0 <= i < j < bt.len() ==> bt[i] == b[i + 1] && bt[j] == b[j + 1]);
        }
        assert forall|name: Seq<char>| #[trigger] schema_lookup(at, name) == schema_lookup(
            bt,
            name,
        ) by {
            if name == a0 {
                lemma_lookup_exists(at, name);
                if schema_lookup(at, name) is Some {
                    let i = choose|i: int| 0 <= i < at.len() && at[i].name@ == name;
                    assert(a[i + 1].name@ == name);
                    assert(lex_lt(a0, a[i + 1].name@));
                    lemma_lex_trichotomy(a0, a0);
                }
                lemma_lookup_exists(bt, name);
                if schema_lookup(bt, name) is Some {
                    let i = choose|i: int| 0 <= i < bt.len() && bt[i].name@ == name;
                    assert(b[i + 1].name@ == name);
                    assert(lex_lt(b0, b[i + 1].name@));
                    lemma_lex_trichotomy(b0, b0);
                }
            } else {
                assert(schema_lookup(a, name) == schema_lookup(at, name));
                assert(schema_lookup(b, name) == schema_lookup(bt, name));
            }
        }
        lemma_sorted_same_content_equal(at, bt);
        assert(schemas_equal(a, b)) by {
            assert(forall|i: int| 1 <= i < a.len() ==> a[i] == at[i - 1] && b[i] == bt[i - 1]);
        }
    }
}

/// Position-by-position comparison of a later source's schema against the
/// baseline: `Ok` exactly when the two agree column for column; otherwise
/// the first disagreement, with the offending file named.
pub fn validate_schema(existing_specs: &Vec<ColumnSpec>, new_specs: &Vec<ColumnSpec>, file_path: &str) -> (r:
    Result<(), ScanError>)
    ensures
        r is Ok <==> schemas_equal(existing_specs@, new_specs@),
        r matches Err(e) ==> (e matches ScanError::SchemaMismatch { filename, detail } && {
            &&& filename@ == file_path@
            &&& match detail {
                MismatchKind::ColumnCount { expected, found } => {
                    &&& existing_specs@.len() != new_specs@.len()
                    &&& expected == existing_specs@.len()
                    &&& found == new_specs@.len()
                },
                MismatchKind::ColumnName { index, expected, found } => {
                    &&& existing_specs@.len() == new_specs@.len()
                    &&& 0 <= index < existing_specs@.len()
                    &&& expected@ == existing_specs@[index as int].name@
                    &&& found@ == new_specs@[index as int].name@
                    &&& expected@ != found@
                },
                MismatchKind::ColumnType { index, name, expected, found } => {
                    &&& existing_specs@.len() == new_specs@.len()
                    &&& 0 <= index < existing_specs@.len()
                    &&& name@ == new_specs@[index as int].name@
                    &&& name@ == existing_specs@[index as int].name@
                    &&& expected == existing_specs@[index as int].column_type
                    &&& found == new_specs@[index as int].column_type
                    &&& expected != found
                },
            }
        }),
{
    if existing_specs.len() != new_specs.len() {
        return Err(
            ScanError::SchemaMismatch {
                filename: file_path.to_owned(),
                detail: MismatchKind::ColumnCount {
                    expected: existing_specs.len(),
                    found: new_specs.len(),
                },
            },
        );
    }
    let n = existing_specs.len();
    let mut i: usize = 0;
    while i < n
        invariant
            i <= n,
            n == existing_specs@.len(),
            n == new_specs@.len(),
            forall|j: int|
                0 <= j < i ==> existing_specs@[j].name@ == new_specs@[j].name@
                    && existing_specs@[j].column_type == new_specs@[j].column_type,
        decreases n - i,
    {
        let existing = &existing_specs[i];
        let local = &new_specs[i];
        if !str_eq(existing.name.as_str(), local.name.as_str()) {
            return Err(
                ScanError::SchemaMismatch {
                    filename: file_path.to_owned(),
                    detail: MismatchKind::ColumnName {
                        index: i,
                        expected: existing.name.clone(),
                        found: local.name.clone(),
                    },
                },
            );
        }
        if existing.column_type != local.column_type {
            return Err(
                ScanError::SchemaMismatch {
                    filename: file_path.to_owned(),
                    detail: MismatchKind::ColumnType {
                        index: i,
                        name: local.name.clone(),
                        expected: existing.column_type,
                        found: local.column_type,
                    },
                },
            );
        }
        i = i + 1;
    }
    Ok(())
}

} // verus!

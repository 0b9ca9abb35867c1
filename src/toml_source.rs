//! Reading the dependency sections out of a parsed TOML manifest.
use vstd::prelude::*;

use crate::manifest::{
    lines_view, manifest_result, opt_lines, GroupsView, ManifestView, ProjectView, PypiDeps,
    RawProject, RawSection, Section, SectionView, UpdateError,
};

verus! {

/// Whether the text is a TOML document, as `<toml::Table as FromStr>::from_str` decides.
pub uninterp spec fn toml_valid(text: Seq<char>) -> bool;

/// The table that `<toml::Table as FromStr>::from_str` reads from valid text.
pub uninterp spec fn toml_doc(text: Seq<char>) -> toml::Table;

/// The value under a key, as `toml::map::Map::get` finds it.
pub uninterp spec fn table_lookup(t: toml::Table, key: Seq<char>) -> Option<toml::Value>;

/// The elements of an array value, as `toml::Value::as_array` gives them.
pub uninterp spec fn toml_array(v: toml::Value) -> Option<Seq<toml::Value>>;

/// The table of a table value, as `toml::Value::as_table` gives it.
pub uninterp spec fn toml_table(v: toml::Value) -> Option<toml::Table>;

/// The text of a string value, as `toml::Value::as_str` gives it.
pub uninterp spec fn toml_string(v: toml::Value) -> Option<Seq<char>>;

/// A value written as TOML, as toml's `Display` for `Value` writes it.
pub uninterp spec fn toml_text(v: toml::Value) -> Seq<char>;

/// The keys of a table in its order, as `toml::map::Map::keys` yields them.
pub uninterp spec fn toml_keys(t: toml::Table) -> Seq<Seq<char>>;

/// Relies on `<toml::Table as FromStr>::from_str` to parse the manifest's text.
#[verifier::external_body]
fn parse_table(text: &str) -> (r: Result<toml::Table, toml::de::Error>)
    ensures
        r is Ok <==> toml_valid(text@),
        r is Ok ==> r->Ok_0 == toml_doc(text@),
{
    text.parse::<toml::Table>()
}

/// Relies on `toml::map::Map::get` for the value under a key.
#[verifier::external_body]
fn table_get<'a>(t: &'a toml::Table, key: &str) -> (r: Option<&'a toml::Value>)
    ensures
        match r {
            Some(v) => table_lookup(*t, key@) == Some(*v),
            None => table_lookup(*t, key@) is None,
        },
{
    t.get(key)
}

/// Relies on `toml::Value::as_array` for the elements of an array value.
#[verifier::external_body]
fn value_as_array(v: &toml::Value) -> (r: Option<&Vec<toml::Value>>)
    ensures
        match r {
            Some(a) => toml_array(*v) == Some(a@),
            None => toml_array(*v) is None,
        },
{
    v.as_array()
}

/// Relies on `toml::Value::as_table` for the entries of a table value.
#[verifier::external_body]
fn value_as_table(v: &toml::Value) -> (r: Option<&toml::Table>)
    ensures
        match r {
            Some(t) => toml_table(*v) == Some(*t),
            None => toml_table(*v) is None,
        },
{
    v.as_table()
}

/// Relies on `toml::Value::as_str` for the text of a string value.
#[verifier::external_body]
fn value_as_str(v: &toml::Value) -> (r: Option<&str>)
    ensures
        match r {
            Some(s) => toml_string(*v) == Some(s@),
            None => toml_string(*v) is None,
        },
{
    v.as_str()
}

/// Relies on toml's `Display` for `Value`: the value written as TOML.
#[verifier::external_body]
fn value_text(v: &toml::Value) -> (r: String)
    ensures
        r@ == toml_text(*v),
{
    v.to_string()
}

/// Relies on `toml::map::Map::keys` for the keys of a table, in its order; each key
/// that it yields is one that the table holds.
#[verifier::external_body]
fn table_keys(t: &toml::Table) -> (r: Vec<String>)
    ensures
        r@.map_values(|s: String| s@) == toml_keys(*t),
        forall|i: int| 0 <= i < r.len() ==> table_lookup(*t, #[trigger] r@[i]@) is Some,
{
    t.keys().cloned().collect()
}

/// The dependency line that an array element stands for: a string's own text, and
/// any other value as TOML writes it.
pub open spec fn element_line(e: toml::Value) -> Seq<char> {
    match toml_string(e) {
        Some(s) => s,
        None => toml_text(e),
    }
}

/// The lines of an array value; `None` if the value is no array.
pub open spec fn array_lines_of(v: toml::Value) -> Option<Seq<Seq<char>>> {
    match toml_array(v) {
        None => None,
        Some(items) => Some(items.map_values(|e: toml::Value| element_line(e))),
    }
}

/// The section under `key`: absent, not an array, or the array's lines.
pub open spec fn section_of(t: toml::Table, key: Seq<char>) -> SectionView {
    match table_lookup(t, key) {
        None => SectionView::Missing,
        Some(v) => match array_lines_of(v) {
            None => SectionView::NotArray,
            Some(ls) => SectionView::Lines(ls),
        },
    }
}

/// The optional groups: one per key of the `optional-dependencies` table, in its
/// order; none where that value is absent or no table.
pub open spec fn groups_of(v: Option<toml::Value>) -> GroupsView {
    match v {
        None => Seq::empty(),
        Some(ov) => match toml_table(ov) {
            None => Seq::empty(),
            Some(g) => toml_keys(g).map_values(
                |k: Seq<char>| (k, array_lines_of(table_lookup(g, k)->Some_0)),
            ),
        },
    }
}

/// The sections of a `project` value; one that is no table has neither section.
pub open spec fn project_view_of(project: toml::Value) -> ProjectView {
    match toml_table(project) {
        None => (SectionView::Missing, Seq::empty()),
        Some(pt) => (
            section_of(pt, "dependencies"@),
            groups_of(table_lookup(pt, "optional-dependencies"@)),
        ),
    }
}

/// The manifest that a TOML document describes: `project` must be present.
pub open spec fn toml_manifest(t: toml::Table) -> Result<ManifestView, UpdateError> {
    match table_lookup(t, "project"@) {
        None => Err(UpdateError::MissingSection(Section::Project)),
        Some(p) => manifest_result(project_view_of(p)),
    }
}

/// The lines of an array value; `None` if the value is no array.
fn array_lines(v: &toml::Value) -> (r: Option<Vec<String>>)
    ensures
        opt_lines(r) == array_lines_of(*v),
{
    match value_as_array(v) {
        None => None,
        Some(items) => {
            let mut lines: Vec<String> = Vec::new();
            let mut i: usize = 0;
            while i < items.len()
                invariant
                    i <= items.len(),
                    lines_view(lines@) =~= items@.subrange(0, i as int).map_values(
                        |e: toml::Value| element_line(e),
                    ),
                decreases items.len() - i,
            {
                let line = match value_as_str(&items[i]) {
                    Some(s) => String::from_str(s),
                    None => value_text(&items[i]),
                };
                let ghost before = lines@;
                lines.push(line);
                assert(lines_view(lines@) =~= lines_view(before).push(line@));
                assert(items@.subrange(0, i + 1) =~= items@.subrange(0, i as int).push(
                    items@[i as int],
                ));
                i = i + 1;
            }
            assert(items@.subrange(0, i as int) =~= items@);
            Some(lines)
        },
    }
}

/// The dependency sections of a `project` value. A `project` that is no table has
/// neither section; an `optional-dependencies` that is absent or no table has no group.
pub fn read_project(project: &toml::Value) -> (r: RawProject)
    ensures
        r.view() == project_view_of(*project),
{
    let mut optional: Vec<(String, Option<Vec<String>>)> = Vec::new();
    match value_as_table(project) {
        None => {
            let r = RawProject { dependencies: RawSection::Missing, optional };
            assert(r.view().1 =~= Seq::<(Seq<char>, Option<Seq<Seq<char>>>)>::empty());
            r
        },
        Some(pt) => {
            let dependencies = match table_get(pt, "dependencies") {
                None => RawSection::Missing,
                Some(v) => match array_lines(v) {
                    None => RawSection::NotArray,
                    Some(ls) => RawSection::Lines(ls),
                },
            };
            let ghost ov = table_lookup(*pt, "optional-dependencies"@);
            match table_get(pt, "optional-dependencies") {
                None => {},
                Some(o) => match value_as_table(o) {
                    None => {},
                    Some(groups) => {
                        let keys = table_keys(groups);
                        let ghost ks = toml_keys(*groups);
                        let ghost target = ks.map_values(
                            |k: Seq<char>| (k, array_lines_of(table_lookup(*groups, k)->Some_0)),
                        );
                        let mut i: usize = 0;
                        while i < keys.len()
                            invariant
                                i <= keys.len(),
                                keys@.map_values(|s: String| s@) == ks,
                                forall|j: int|
                                    0 <= j < keys.len() ==> table_lookup(
                                        *groups,
                                        #[trigger] keys@[j]@,
                                    ) is Some,
                                target == ks.map_values(
                                    |k: Seq<char>|
                                        (k, array_lines_of(table_lookup(*groups, k)->Some_0)),
                                ),
                                optional@.map_values(
                                    |g: (String, Option<Vec<String>>)| (g.0@, opt_lines(g.1)),
                                ) =~= target.subrange(0, i as int),
                            decreases keys.len() - i,
                        {
                            assert(ks[i as int] == keys@[i as int]@);
                            match table_get(groups, keys[i].as_str()) {
                                None => {},
                                Some(g) => {
                                    let ghost before = optional@;
                                    let lines = array_lines(g);
                                    optional.push((keys[i].clone(), lines));
                                    assert(optional@.map_values(
                                        |g: (String, Option<Vec<String>>)| (g.0@, opt_lines(g.1)),
                                    ) =~= before.map_values(
                                        |g: (String, Option<Vec<String>>)| (g.0@, opt_lines(g.1)),
                                    ).push(target[i as int]));
                                    assert(target.subrange(0, i + 1) =~= target.subrange(
                                        0,
                                        i as int,
                                    ).push(target[i as int]));
                                },
                            }
                            i = i + 1;
                        }
                        assert(target.subrange(0, i as int) =~= target);
                    },
                },
            }
            let r = RawProject { dependencies, optional };
            assert(r.view().1 =~= groups_of(ov));
            r
        },
    }
}

impl PypiDeps {
    /// Builds the manifest from a parsed TOML document: `project` must be present,
    /// and its sections decide the rest.
    pub fn from_toml(t: &toml::Table) -> (r: Result<PypiDeps, UpdateError>)
        ensures
            match toml_manifest(*t) {
                Ok(m) => r is Ok && r->Ok_0@ == m,
                Err(e) => r is Err && r->Err_0 == e,
            },
    {
        match table_get(t, "project") {
            None => Err(UpdateError::MissingSection(Section::Project)),
            Some(project) => {
                let raw = read_project(project);
                PypiDeps::from_project(&raw)
            },
        }
    }

    /// Builds the manifest from the text of a TOML document.
    pub fn from_manifest_text(text: &str) -> (r: Result<PypiDeps, UpdateError>)
        ensures
            !toml_valid(text@) <==> (r is Err && r->Err_0 is ParseToml),
            toml_valid(text@) ==> match toml_manifest(toml_doc(text@)) {
                Ok(m) => r is Ok && r->Ok_0@ == m,
                Err(e) => r is Err && r->Err_0 == e,
            },
    {
        match parse_table(text) {
            Err(e) => Err(UpdateError::ParseToml(e)),
            Ok(t) => {
                proof {
                    if let Some(p) = table_lookup(t, "project"@) {
                        crate::manifest::lemma_build_error_kinds(project_view_of(p));
                    }
                }
                PypiDeps::from_toml(&t)
            },
        }
    }
}

} // verus!

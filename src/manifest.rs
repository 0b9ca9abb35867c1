//! The manifest model: the required dependencies and the optional groups, built
//! from the text of each array entry.
use vstd::prelude::*;

use crate::specifier::{dep_view, parse_spec, parse_specifier, Dep, DepView, Malformed};

verus! {

/// Which structurally required section of the manifest is absent.
#[derive(Debug, Clone, Copy, PartialEq, Eq)]
pub enum Section {
    /// The `project` table.
    Project,
    /// The `project.dependencies` array.
    Dependencies,
}

/// What reading the manifest's dependencies can fail with.
#[derive(Debug)]
pub enum UpdateError {
    /// A required section is absent.
    MissingSection(Section),
    /// A dependency section is not an array.
    NotArray,
    /// One dependency line does not parse.
    Specifier(Malformed),
    /// The manifest names a package for which no newest version is known.
    Unresolved(String),
    /// The manifest is not valid TOML.
    ParseToml(toml::de::Error),
    /// The index's answer is not valid JSON.
    ParseJson(serde_json::Error),
    /// The index's answer holds no `info.version` string.
    NoVersionField,
}

/// An ordered group of dependencies.
#[derive(Debug)]
pub struct Dependencies(pub Vec<Dep>);

pub open spec fn group_view(ds: Seq<Dep>) -> Seq<DepView> {
    ds.map_values(|d: Dep| dep_view(d))
}

impl Dependencies {
    pub open spec fn view(&self) -> Seq<DepView> {
        group_view(self.0@)
    }
}

/// The dependencies of a project: the required ones and the optional groups, in order.
#[derive(Debug)]
pub struct PypiDeps {
    pub dependencies: Dependencies,
    pub optional_dependencies: Vec<(String, Dependencies)>,
}

/// A group of dependencies as plain values.
pub type DepsView = Seq<DepView>;

/// A manifest as plain values: required dependencies, and each optional group by name.
pub type ManifestView = (DepsView, Seq<(Seq<char>, DepsView)>);

pub open spec fn groups_view(gs: Seq<(String, Dependencies)>) -> Seq<(Seq<char>, Seq<DepView>)> {
    gs.map_values(|g: (String, Dependencies)| (g.0@, g.1.view()))
}

impl PypiDeps {
    pub open spec fn view(&self) -> ManifestView {
        (self.dependencies.view(), groups_view(self.optional_dependencies@))
    }
}

pub open spec fn lines_view(ls: Seq<String>) -> Seq<Seq<char>> {
    ls.map_values(|s: String| s@)
}

/// The parse of each line in order, or the error of the first line that fails.
pub open spec fn parse_lines(ls: Seq<Seq<char>>) -> Result<Seq<DepView>, Malformed>
    decreases ls.len(),
{
    if ls.len() == 0 {
        Ok(Seq::empty())
    } else {
        match parse_lines(ls.drop_last()) {
            Err(e) => Err(e),
            Ok(ds) => match parse_spec(ls.last()) {
                Err(e) => Err(e),
                Ok(d) => Ok(ds.push(d)),
            },
        }
    }
}

/// A dependency section as the manifest holds it.
pub enum RawSection {
    /// There is no such key.
    Missing,
    /// The key holds something other than an array.
    NotArray,
    /// The key holds an array; this is the text of each entry.
    Lines(Vec<String>),
}

/// The dependency sections of a manifest's `project` table.
pub struct RawProject {
    pub dependencies: RawSection,
    /// Each optional group by name; `None` where the group is not an array.
    pub optional: Vec<(String, Option<Vec<String>>)>,
}

/// A dependency section as plain values.
pub enum SectionView {
    Missing,
    NotArray,
    Lines(Seq<Seq<char>>),
}

/// The optional groups as plain values: each name, and its lines where it is an array.
pub type GroupsView = Seq<(Seq<char>, Option<Seq<Seq<char>>>)>;

/// The dependency sections of a `project` table as plain values.
pub type ProjectView = (SectionView, GroupsView);

pub open spec fn opt_lines(o: Option<Vec<String>>) -> Option<Seq<Seq<char>>> {
    match o {
        Some(ls) => Some(lines_view(ls@)),
        None => None,
    }
}

impl RawProject {
    pub open spec fn view(&self) -> ProjectView {
        (
            match self.dependencies {
                RawSection::Missing => SectionView::Missing,
                RawSection::NotArray => SectionView::NotArray,
                RawSection::Lines(ls) => SectionView::Lines(lines_view(ls@)),
            },
            self.optional@.map_values(
                |g: (String, Option<Vec<String>>)| (g.0@, opt_lines(g.1)),
            ),
        )
    }
}

pub open spec fn group_result(ls: Seq<Seq<char>>) -> Result<Seq<DepView>, UpdateError> {
    match parse_lines(ls) {
        Ok(ds) => Ok(ds),
        Err(e) => Err(UpdateError::Specifier(e)),
    }
}

/// The optional groups, or the error of the first group that fails.
pub open spec fn groups_result(gs: GroupsView) -> Result<
    Seq<(Seq<char>, Seq<DepView>)>,
    UpdateError,
>
    decreases gs.len(),
{
    if gs.len() == 0 {
        Ok(Seq::empty())
    } else {
        match groups_result(gs.drop_last()) {
            Err(e) => Err(e),
            Ok(done) => match gs.last().1 {
                None => Err(UpdateError::NotArray),
                Some(ls) => match group_result(ls) {
                    Err(e) => Err(e),
                    Ok(ds) => Ok(done.push((gs.last().0, ds))),
                },
            },
        }
    }
}

/// The manifest that a `project` table describes: the required section must be an
/// array, and every line of every section must parse.
pub open spec fn manifest_result(p: ProjectView) -> Result<ManifestView, UpdateError> {
    match p.0 {
        SectionView::Missing => Err(UpdateError::MissingSection(Section::Dependencies)),
        SectionView::NotArray => Err(UpdateError::NotArray),
        SectionView::Lines(ls) => match group_result(ls) {
            Err(e) => Err(e),
            Ok(req) => match groups_result(p.1) {
                Err(e) => Err(e),
                Ok(opt) => Ok((req, opt)),
            },
        },
    }
}

impl Dependencies {
    /// Parses each line, in order; the first line that fails decides the error.
    pub fn from_lines(lines: &Vec<String>) -> (r: Result<Dependencies, Malformed>)
        ensures
            match parse_lines(lines_view(lines@)) {
                Ok(ds) => r is Ok && r->Ok_0.view() == ds,
                Err(e) => r == Err::<Dependencies, Malformed>(e),
            },
    {
        let mut out: Vec<Dep> = Vec::new();
        let mut i: usize = 0;
        assert(group_view(out@) =~= Seq::empty());
        assert(lines_view(lines@).subrange(0, 0) =~= Seq::empty());
        while i < lines.len()
            invariant
                i <= lines.len(),
                parse_lines(lines_view(lines@).subrange(0, i as int)) == Ok::<
                    Seq<DepView>,
                    Malformed,
                >(group_view(out@)),
            decreases lines.len() - i,
        {
            let ghost before = lines_view(lines@).subrange(0, i as int);
            let ghost upto = lines_view(lines@).subrange(0, i + 1);
            assert(upto.drop_last() =~= before);
            assert(upto.last() == lines@[i as int]@);
            match parse_specifier(lines[i].as_str()) {
                Err(e) => {
                    proof {
                        lemma_parse_lines_prefix_err(lines_view(lines@), i + 1);
                    }
                    return Err(e);
                },
                Ok(d) => {
                    let ghost before = out@;
                    out.push(d);
                    assert(group_view(out@) =~= group_view(before).push(dep_view(d)));
                },
            }
            i = i + 1;
        }
        assert(lines_view(lines@).subrange(0, i as int) =~= lines_view(lines@));
        Ok(Dependencies(out))
    }
}

proof fn lemma_parse_lines_prefix_err(ls: Seq<Seq<char>>, n: int)
    requires
        0 <= n <= ls.len(),
        parse_lines(ls.subrange(0, n)) is Err,
    ensures
        parse_lines(ls) == parse_lines(ls.subrange(0, n)),
    decreases ls.len() - n,
{
    if n < ls.len() {
        let next = ls.subrange(0, n + 1);
        assert(next.drop_last() =~= ls.subrange(0, n));
        lemma_parse_lines_prefix_err(ls, n + 1);
    } else {
        assert(ls.subrange(0, n) =~= ls);
    }
}

impl PypiDeps {
    /// Builds the manifest from its `project` table: the required section must be an
    /// array, an absent optional section leaves no group, and the first line that
    /// fails to parse (required ones first, then each group in order) fails the whole.
    pub fn from_project(p: &RawProject) -> (r: Result<PypiDeps, UpdateError>)
        ensures
            match manifest_result(p.view()) {
                Ok(m) => r is Ok && r->Ok_0@ == m,
                Err(e) => r is Err && r->Err_0 == e,
            },
    {
        let dependencies = match &p.dependencies {
            RawSection::Missing => return Err(UpdateError::MissingSection(Section::Dependencies)),
            RawSection::NotArray => return Err(UpdateError::NotArray),
            RawSection::Lines(ls) => match Dependencies::from_lines(ls) {
                Err(e) => return Err(UpdateError::Specifier(e)),
                Ok(d) => d,
            },
        };
        let mut groups: Vec<(String, Dependencies)> = Vec::new();
        let mut i: usize = 0;
        assert(groups_view(groups@) =~= Seq::empty());
        let ghost gs = p.view().1;
        assert(gs.subrange(0, 0) =~= Seq::empty());
        while i < p.optional.len()
            invariant
                i <= p.optional.len(),
                gs == p.view().1,
                gs.len() == p.optional.len(),
                manifest_result(p.view()) == match groups_result(gs) {
                    Err(e) => Err(e),
                    Ok(opt) => Ok::<ManifestView, UpdateError>((dependencies.view(), opt)),
                },
                groups_result(gs.subrange(0, i as int)) == Ok::<
                    Seq<(Seq<char>, Seq<DepView>)>,
                    UpdateError,
                >(groups_view(groups@)),
            decreases p.optional.len() - i,
        {
            let ghost upto = gs.subrange(0, i + 1);
            assert(upto.drop_last() =~= gs.subrange(0, i as int));
            let entry = &p.optional[i];
            assert(upto.last() == (entry.0@, opt_lines(entry.1)));
            match &entry.1 {
                None => {
                    proof {
                        lemma_groups_prefix_err(gs, i + 1);
                    }
                    return Err(UpdateError::NotArray);
                },
                Some(ls) => match Dependencies::from_lines(ls) {
                    Err(e) => {
                        proof {
                            lemma_groups_prefix_err(gs, i + 1);
                        }
                        return Err(UpdateError::Specifier(e));
                    },
                    Ok(d) => {
                        let ghost before = groups@;
                        let ghost dv = d.view();
                        groups.push((entry.0.clone(), d));
                        assert(groups_view(groups@) =~= groups_view(before).push((entry.0@, dv)));
                    },
                },
            }
            i = i + 1;
        }
        assert(gs.subrange(0, i as int) =~= gs);
        Ok(PypiDeps { dependencies, optional_dependencies: groups })
    }
}

proof fn lemma_groups_names(gs: GroupsView)
    requires
        groups_result(gs) is Ok,
    ensures
        groups_result(gs)->Ok_0.len() == gs.len(),
        forall|i: int| 0 <= i < gs.len() ==> groups_result(gs)->Ok_0[i].0 == gs[i].0,
    decreases gs.len(),
{
    if gs.len() > 0 {
        let pre = gs.drop_last();
        lemma_groups_names(pre);
        assert forall|i: int| 0 <= i < gs.len() implies groups_result(gs)->Ok_0[i].0 == gs[i].0 by {
            if i < pre.len() {
                assert(pre[i] == gs[i]);
            }
        }
    }
}

/// Building a manifest fails only with a missing or malformed section, or a bad line.
pub proof fn lemma_build_error_kinds(p: ProjectView)
    ensures
        manifest_result(p) is Err ==> !(manifest_result(p)->Err_0 is ParseToml),
{
    lemma_groups_error_kinds(p.1);
}

proof fn lemma_groups_error_kinds(gs: GroupsView)
    ensures
        groups_result(gs) is Err ==> !(groups_result(gs)->Err_0 is ParseToml),
    decreases gs.len(),
{
    if gs.len() > 0 {
        lemma_groups_error_kinds(gs.drop_last());
    }
}

/// The manifest holds an optional group under a name only where the `project` table
/// holds one: a group that the input lacks (say `test`) is not made up, and a table
/// without optional groups yields a manifest without any, not an error.
pub proof fn lemma_no_invented_groups(p: ProjectView, key: Seq<char>)
    requires
        forall|i: int| 0 <= i < p.1.len() ==> p.1[i].0 != key,
    ensures
        manifest_result(p) is Ok ==> forall|i: int|
            0 <= i < manifest_result(p)->Ok_0.1.len() ==> manifest_result(p)->Ok_0.1[i].0 != key,
        p.1.len() == 0 ==> groups_result(p.1) == Ok::<
            Seq<(Seq<char>, DepsView)>,
            UpdateError,
        >(Seq::empty()),
{
    if manifest_result(p) is Ok {
        assert(groups_result(p.1) is Ok);
        assert(manifest_result(p)->Ok_0.1 == groups_result(p.1)->Ok_0);
        lemma_groups_names(p.1);
        let out = groups_result(p.1)->Ok_0;
        assert forall|i: int| 0 <= i < out.len() implies out[i].0 != key by {
            assert(out[i].0 == p.1[i].0);
        }
    }
}

proof fn lemma_groups_prefix_err(gs: GroupsView, n: int)
    requires
        0 <= n <= gs.len(),
        groups_result(gs.subrange(0, n)) is Err,
    ensures
        groups_result(gs) == groups_result(gs.subrange(0, n)),
    decreases gs.len() - n,
{
    if n < gs.len() {
        let next = gs.subrange(0, n + 1);
        assert(next.drop_last() =~= gs.subrange(0, n));
        lemma_groups_prefix_err(gs, n + 1);
    } else {
        assert(gs.subrange(0, n) =~= gs);
    }
}

} // verus!

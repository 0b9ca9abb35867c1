//! The updater: every dependency gets the newest version found for its name.
use vstd::prelude::*;

use crate::manifest::{group_view, groups_view, Dependencies, DepsView, ManifestView, PypiDeps, UpdateError};
use crate::resolve::{all_names, group_names, names_of, Resolutions};
use crate::specifier::{Dep, DepView};

verus! {

/// The operator that pins a dependency that had none.
pub open spec fn default_op() -> Seq<char> {
    seq!['=', '=']
}

/// A dependency pinned to the version `m` holds for its name, keeping its operator.
pub open spec fn updated(d: DepView, m: Map<Seq<char>, Seq<char>>) -> DepView {
    (
        d.0,
        Some(
            (
                match d.1 {
                    Some((o, _)) => o,
                    None => default_op(),
                },
                m[d.0],
            ),
        ),
    )
}

pub open spec fn updated_group(ds: DepsView, m: Map<Seq<char>, Seq<char>>) -> DepsView {
    ds.map_values(|d: DepView| updated(d, m))
}

pub open spec fn updated_manifest(mv: ManifestView, m: Map<Seq<char>, Seq<char>>) -> ManifestView {
    (
        updated_group(mv.0, m),
        mv.1.map_values(|g: (Seq<char>, DepsView)| (g.0, updated_group(g.1, m))),
    )
}

/// The first name, in order, for which `m` holds no version.
pub open spec fn first_missing(ns: Seq<Seq<char>>, m: Map<Seq<char>, Seq<char>>) -> Option<
    Seq<char>,
>
    decreases ns.len(),
{
    if ns.len() == 0 {
        None
    } else if !m.contains_key(ns[0]) {
        Some(ns[0])
    } else {
        first_missing(ns.drop_first(), m)
    }
}

proof fn lemma_none_missing(ns: Seq<Seq<char>>, m: Map<Seq<char>, Seq<char>>)
    requires
        first_missing(ns, m) is None,
    ensures
        forall|k: int| 0 <= k < ns.len() ==> m.contains_key(#[trigger] ns[k]),
    decreases ns.len(),
{
    if ns.len() > 0 {
        lemma_none_missing(ns.drop_first(), m);
        assert forall|k: int| 0 <= k < ns.len() implies m.contains_key(#[trigger] ns[k]) by {
            if k > 0 {
                assert(ns[k] == ns.drop_first()[k - 1]);
            }
        }
    }
}

proof fn lemma_group_names_contains(gs: Seq<(Seq<char>, DepsView)>, g: int, j: int)
    requires
        0 <= g < gs.len(),
        0 <= j < gs[g].1.len(),
    ensures
        group_names(gs).contains(gs[g].1[j].0),
    decreases gs.len(),
{
    let pre = group_names(gs.drop_last());
    if g == gs.len() - 1 {
        assert(group_names(gs)[pre.len() + j] == gs[g].1[j].0);
    } else {
        lemma_group_names_contains(gs.drop_last(), g, j);
        let k = choose|k: int| 0 <= k < pre.len() && pre[k] == gs[g].1[j].0;
        assert(group_names(gs)[k] == pre[k]);
    }
}

/// Pins each dependency of a group, keeping its operator (`==` where it had none).
fn update_group(ds: &Vec<Dep>, latest: &Resolutions) -> (r: Vec<Dep>)
    requires
        forall|j: int| 0 <= j < ds.len() ==> latest@.contains_key(#[trigger] ds@[j].0@),
    ensures
        group_view(r@) == updated_group(group_view(ds@), latest@),
{
    let mut out: Vec<Dep> = Vec::new();
    let mut i: usize = 0;
    while i < ds.len()
        invariant
            i <= ds.len(),
            forall|j: int| 0 <= j < ds.len() ==> latest@.contains_key(#[trigger] ds@[j].0@),
            group_view(out@) =~= updated_group(group_view(ds@), latest@).subrange(0, i as int),
        decreases ds.len() - i,
    {
        let name = ds[i].0.clone();
        let op = match &ds[i].1 {
            Some((o, _)) => o.clone(),
            None => {
                proof {
                    reveal_strlit("==");
                }
                let d = String::from_str("==");
                assert(d@ =~= default_op());
                d
            },
        };
        assert(latest@.contains_key(ds@[i as int].0@));
        let version = match latest.get(&name) {
            Some(v) => v,
            None => String::new(),
        };
        let ghost before = out@;
        out.push((name, Some((op, version))));
        assert(group_view(out@) =~= group_view(before).push(crate::specifier::dep_view(out@.last())));
        assert(updated_group(group_view(ds@), latest@).subrange(0, i + 1) =~= updated_group(
            group_view(ds@),
            latest@,
        ).subrange(0, i as int).push(updated(group_view(ds@)[i as int], latest@)));
        i = i + 1;
    }
    assert(updated_group(group_view(ds@), latest@).subrange(0, i as int) =~= updated_group(
        group_view(ds@),
        latest@,
    ));
    out
}

/// Pins every dependency to the newest version in `latest`, keeping its operator and
/// using `==` where it had none. If some name has no version, nothing is changed and
/// the first such name, in manifest order, is reported.
pub fn update_versions(deps: &mut PypiDeps, latest: &Resolutions) -> (r: Result<(), UpdateError>)
    ensures
        match first_missing(all_names(old(deps)@), latest@) {
            None => r is Ok && final(deps)@ == updated_manifest(old(deps)@, latest@),
            Some(n) => {
                &&& r is Err
                &&& r->Err_0 is Unresolved
                &&& r->Err_0->Unresolved_0@ == n
                &&& final(deps)@ == old(deps)@
            },
        },
{
    let names = deps.names();
    let ghost ns = all_names(deps@);
    let mut i: usize = 0;
    assert(ns.subrange(0, ns.len() as int) =~= ns);
    while i < names.len()
        invariant
            i <= names.len(),
            names@.map_values(|s: String| s@) == ns,
            ns == all_names(old(deps)@),
            *deps == *old(deps),
            first_missing(ns, latest@) == first_missing(ns.subrange(i as int, ns.len() as int), latest@),
        decreases names.len() - i,
    {
        let ghost rest = ns.subrange(i as int, ns.len() as int);
        assert(rest[0] == names@[i as int]@);
        if !latest.contains(&names[i]) {
            assert(first_missing(rest, latest@) == Some(names@[i as int]@));
            return Err(UpdateError::Unresolved(names[i].clone()));
        }
        assert(rest.drop_first() =~= ns.subrange(i + 1, ns.len() as int));
        i = i + 1;
    }
    assert(ns.subrange(i as int, ns.len() as int) =~= Seq::<Seq<char>>::empty());
    proof {
        lemma_none_missing(ns, latest@);
        assert forall|j: int| 0 <= j < deps.dependencies.0.len() implies latest@.contains_key(
            #[trigger] deps.dependencies.0@[j].0@,
        ) by {
            assert(ns[j] == names_of(deps@.0)[j]);
        }
    }
    let new_req = update_group(&deps.dependencies.0, latest);
    let mut groups: Vec<(String, Dependencies)> = Vec::new();
    let mut g: usize = 0;
    let ghost gv = deps@.1;
    while g < deps.optional_dependencies.len()
        invariant
            g <= deps.optional_dependencies.len(),
            gv == groups_view(deps.optional_dependencies@),
            ns == names_of(deps@.0) + group_names(gv),
            forall|k: int| 0 <= k < ns.len() ==> latest@.contains_key(#[trigger] ns[k]),
            groups_view(groups@) =~= gv.map_values(
                |x: (Seq<char>, DepsView)| (x.0, updated_group(x.1, latest@)),
            ).subrange(0, g as int),
        decreases deps.optional_dependencies.len() - g,
    {
        let entry = &deps.optional_dependencies[g];
        proof {
            assert forall|j: int| 0 <= j < entry.1.0.len() implies latest@.contains_key(
                #[trigger] entry.1.0@[j].0@,
            ) by {
                assert(gv[g as int].1[j].0 == entry.1.0@[j].0@);
                lemma_group_names_contains(gv, g as int, j);
                let k = choose|k: int|
                    0 <= k < group_names(gv).len() && group_names(gv)[k] == gv[g as int].1[j].0;
                assert(ns[names_of(deps@.0).len() + k] == group_names(gv)[k]);
            }
        }
        let ds = update_group(&entry.1.0, latest);
        let ghost before = groups@;
        groups.push((entry.0.clone(), Dependencies(ds)));
        assert(groups_view(groups@) =~= groups_view(before).push(groups_view(groups@).last()));
        let ghost target = gv.map_values(
            |x: (Seq<char>, DepsView)| (x.0, updated_group(x.1, latest@)),
        );
        assert(target.subrange(0, g + 1) =~= target.subrange(0, g as int).push(target[g as int]));
        g = g + 1;
    }
    let ghost target = gv.map_values(|x: (Seq<char>, DepsView)| (x.0, updated_group(x.1, latest@)));
    assert(target.subrange(0, g as int) =~= target);
    deps.dependencies = Dependencies(new_req);
    deps.optional_dependencies = groups;
    Ok(())
}

} // verus!

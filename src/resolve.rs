//! Resolution: the newest version known for each package name, and the admission
//! gate that bounds how many registry lookups are outstanding at once.
use vstd::prelude::*;

use vstd::multiset::Multiset;

use crate::manifest::{DepsView, PypiDeps};

verus! {

broadcast use vstd::multiset::group_multiset_properties, vstd::seq_lib::group_to_multiset_ensures;

/// The map that a sequence of writes leaves, the last write of a name winning.
pub open spec fn entries_map(es: Seq<(String, String)>) -> Map<Seq<char>, Seq<char>>
    decreases es.len(),
{
    if es.len() == 0 {
        Map::empty()
    } else {
        entries_map(es.drop_last()).insert(es.last().0@, es.last().1@)
    }
}

/// The newest version found for each package name, keyed as the manifest writes it.
#[derive(Debug)]
pub struct Resolutions {
    entries: Vec<(String, String)>,
}

impl View for Resolutions {
    type V = Map<Seq<char>, Seq<char>>;

    closed spec fn view(&self) -> Map<Seq<char>, Seq<char>> {
        entries_map(self.entries@)
    }
}

proof fn lemma_entries_tail(es: Seq<(String, String)>, i: int, k: Seq<char>)
    requires
        0 <= i <= es.len(),
        forall|j: int| i <= j < es.len() ==> es[j].0@ != k,
    ensures
        entries_map(es).contains_key(k) == entries_map(es.subrange(0, i)).contains_key(k),
        entries_map(es)[k] == entries_map(es.subrange(0, i))[k],
    decreases es.len() - i,
{
    if i < es.len() {
        lemma_entries_tail(es.drop_last(), i, k);
        assert(es.drop_last().subrange(0, i) =~= es.subrange(0, i));
    } else {
        assert(es.subrange(0, i) =~= es);
    }
}

impl Resolutions {
    pub fn new() -> (r: Resolutions)
        ensures
            r@ == Map::<Seq<char>, Seq<char>>::empty(),
    {
        Resolutions { entries: Vec::new() }
    }

    /// Records `version` as the newest of `name`, replacing what was known.
    pub fn insert(&mut self, name: String, version: String)
        ensures
            final(self)@ == old(self)@.insert(name@, version@),
    {
        let ghost before = self.entries@;
        self.entries.push((name, version));
        assert(self.entries@.drop_last() =~= before);
    }

    /// The newest version known for `name`.
    pub fn get(&self, name: &String) -> (r: Option<String>)
        ensures
            match r {
                Some(v) => self@.contains_key(name@) && self@[name@] == v@,
                None => !self@.contains_key(name@),
            },
    {
        let mut i = self.entries.len();
        while i > 0
            invariant
                i <= self.entries.len(),
                forall|j: int| i <= j < self.entries.len() ==> self.entries@[j].0@ != name@,
            decreases i,
        {
            if self.entries[i - 1].0 == *name {
                proof {
                    lemma_entries_tail(self.entries@, i as int, name@);
                    let pre = self.entries@.subrange(0, i as int);
                    assert(pre.drop_last() =~= self.entries@.subrange(0, i - 1));
                }
                return Some(self.entries[i - 1].1.clone());
            }
            i = i - 1;
        }
        proof {
            lemma_entries_tail(self.entries@, 0, name@);
        }
        None
    }

    /// Whether a version is known for `name`.
    pub fn contains(&self, name: &String) -> (r: bool)
        ensures
            r == self@.contains_key(name@),
    {
        self.get(name).is_some()
    }
}

/// The outcome of each finished lookup, in the order they finished.
pub type OutcomeLog = Seq<(Seq<char>, Option<Seq<char>>)>;

/// What a run of lookups leaves: each success written under its name, failures skipped.
pub open spec fn outcomes_map(log: OutcomeLog) -> Map<Seq<char>, Seq<char>>
    decreases log.len(),
{
    if log.len() == 0 {
        Map::empty()
    } else {
        match log.last().1 {
            Some(v) => outcomes_map(log.drop_last()).insert(log.last().0, v),
            None => outcomes_map(log.drop_last()),
        }
    }
}

/// The names of the finished lookups, in order.
pub open spec fn log_names(log: OutcomeLog) -> Seq<Seq<char>> {
    log.map_values(|e: (Seq<char>, Option<Seq<char>>)| e.0)
}

/// The names whose lookup succeeded at least once.
pub open spec fn succeeded(log: OutcomeLog) -> Set<Seq<char>> {
    Set::new(|n: Seq<char>| exists|i: int| 0 <= i < log.len() && log[i].0 == n && log[i].1 is Some)
}

/// The resolution map holds exactly the names whose lookup succeeded: a failed lookup
/// leaves its name out, and nothing else is added.
pub proof fn lemma_resolved_exactly_succeeded(log: OutcomeLog)
    ensures
        outcomes_map(log).dom() == succeeded(log),
    decreases log.len(),
{
    if log.len() > 0 {
        let pre = log.drop_last();
        lemma_resolved_exactly_succeeded(pre);
        assert forall|n: Seq<char>| succeeded(log).contains(n) <==> outcomes_map(log).dom().contains(
            n,
        ) by {
            if succeeded(log).contains(n) && !(log.last().0 == n && log.last().1 is Some) {
                let i = choose|i: int|
                    0 <= i < log.len() && log[i].0 == n && log[i].1 is Some;
                assert(i < pre.len() && pre[i] == log[i]);
            }
            if succeeded(pre).contains(n) {
                let i = choose|i: int|
                    0 <= i < pre.len() && pre[i].0 == n && pre[i].1 is Some;
                assert(log[i] == pre[i]);
            }
        }
        assert(outcomes_map(log).dom() =~= succeeded(log));
    }
}

pub open spec fn opt_view(o: Option<String>) -> Option<Seq<char>> {
    match o {
        Some(v) => Some(v@),
        None => None,
    }
}

/// When every name has been looked up once (the finished lookups' names are the names
/// handed out, counted with repeats) and the registry answers each name the same way
/// (`answer`), the resolution map holds exactly the names whose lookup succeeds.
pub proof fn lemma_finished_resolves_successes(
    names: Seq<Seq<char>>,
    log: OutcomeLog,
    answer: spec_fn(Seq<char>) -> Option<Seq<char>>,
)
    requires
        log_names(log).to_multiset() == names.to_multiset(),
        forall|i: int| 0 <= i < log.len() ==> #[trigger] log[i].1 == answer(log[i].0),
    ensures
        outcomes_map(log).dom() == names.to_set().filter(|n: Seq<char>| answer(n) is Some),
{
    lemma_resolved_exactly_succeeded(log);
    let target = names.to_set().filter(|n: Seq<char>| answer(n) is Some);
    assert forall|n: Seq<char>| succeeded(log).contains(n) <==> target.contains(n) by {
        vstd::seq_lib::to_multiset_contains(names, n);
        vstd::seq_lib::to_multiset_contains(log_names(log), n);
        if succeeded(log).contains(n) {
            let i = choose|i: int| 0 <= i < log.len() && log[i].0 == n && log[i].1 is Some;
            assert(log_names(log)[i] == n);
            assert(log_names(log).contains(n));
        }
        if target.contains(n) {
            assert(log_names(log).contains(n));
            let i = choose|i: int| 0 <= i < log_names(log).len() && log_names(log)[i] == n;
            assert(log[i].0 == n);
            assert(log[i].1 == answer(log[i].0));
        }
    }
    assert(succeeded(log) =~= target);
}

/// What the driver of the lookups is to do next.
#[derive(Debug)]
pub enum FetchStep {
    /// Start a lookup of this name.
    Lookup(String),
    /// Wait for an outstanding lookup to finish and report it.
    Wait,
    /// Every lookup has started and finished.
    Finished,
}

/// The admission gate over the lookups of a list of names: a name is handed out only
/// while fewer than `limit` lookups are outstanding, and each finished lookup frees
/// its place exactly once, whether it succeeded or not.
pub struct FetchState {
    names: Vec<String>,
    next: usize,
    in_flight: usize,
    limit: usize,
    latest: Resolutions,
    log: Ghost<OutcomeLog>,
    pending: Ghost<Multiset<Seq<char>>>,
}

impl FetchState {
    pub closed spec fn names(&self) -> Seq<Seq<char>> {
        self.names@.map_values(|s: String| s@)
    }

    /// How many names have been handed out.
    pub closed spec fn started(&self) -> nat {
        self.next as nat
    }

    /// How many lookups are outstanding.
    pub closed spec fn in_flight(&self) -> nat {
        self.in_flight as nat
    }

    pub closed spec fn limit(&self) -> nat {
        self.limit as nat
    }

    /// The finished lookups, in the order they were reported.
    pub closed spec fn log(&self) -> OutcomeLog {
        self.log@
    }

    /// The names handed out whose lookup has not been reported yet.
    pub closed spec fn pending(&self) -> Multiset<Seq<char>> {
        self.pending@
    }

    pub closed spec fn latest(&self) -> Map<Seq<char>, Seq<char>> {
        self.latest@
    }

    pub closed spec fn wf(&self) -> bool {
        &&& self.next <= self.names.len()
        &&& self.in_flight <= self.next
        &&& 0 < self.limit
        &&& self.in_flight <= self.limit
        &&& self.latest@ == outcomes_map(self.log@)
        &&& self.pending@.len() == self.in_flight
        &&& self.names().subrange(0, self.next as int).to_multiset() == self.pending@.add(
            log_names(self.log@).to_multiset(),
        )
    }

    /// A gate over `names` that lets at most `limit` lookups be outstanding.
    pub fn new(names: Vec<String>, limit: usize) -> (r: FetchState)
        requires
            limit > 0,
        ensures
            r.wf(),
            r.names() == names@.map_values(|s: String| s@),
            r.limit() == limit,
            r.started() == 0,
            r.in_flight() == 0,
            r.log() == Seq::<(Seq<char>, Option<Seq<char>>)>::empty(),
            r.pending() == Multiset::<Seq<char>>::empty(),
    {
        let r = FetchState {
            names,
            next: 0,
            in_flight: 0,
            limit,
            latest: Resolutions::new(),
            log: Ghost(Seq::empty()),
            pending: Ghost(Multiset::empty()),
        };
        assert(r.names().subrange(0, 0) =~= Seq::<Seq<char>>::empty());
        assert(log_names(r.log@) =~= Seq::<Seq<char>>::empty());
        assert(Seq::<Seq<char>>::empty().to_multiset() =~= Multiset::empty());
        assert(r.pending@.add(Multiset::empty()) =~= Multiset::empty());
        assert(r.pending@.len() == 0);
        r
    }

    /// Decides the next move: hand out the next name while a place is free, else wait
    /// while lookups are outstanding, else report that all are done.
    pub fn step(&mut self) -> (r: FetchStep)
        requires
            old(self).wf(),
        ensures
            final(self).wf(),
            final(self).names() == old(self).names(),
            final(self).limit() == old(self).limit(),
            final(self).log() == old(self).log(),
            final(self).in_flight() <= final(self).limit(),
            match r {
                FetchStep::Lookup(n) => {
                    &&& old(self).started() < old(self).names().len()
                    &&& old(self).in_flight() < old(self).limit()
                    &&& n@ == old(self).names()[old(self).started() as int]
                    &&& final(self).started() == old(self).started() + 1
                    &&& final(self).in_flight() == old(self).in_flight() + 1
                    &&& final(self).pending() == old(self).pending().insert(n@)
                },
                FetchStep::Wait => {
                    &&& old(self).in_flight() > 0
                    &&& (old(self).started() == old(self).names().len() || old(self).in_flight()
                        == old(self).limit())
                    &&& final(self).started() == old(self).started()
                    &&& final(self).in_flight() == old(self).in_flight()
                    &&& final(self).pending() == old(self).pending()
                },
                FetchStep::Finished => {
                    &&& old(self).started() == old(self).names().len()
                    &&& old(self).in_flight() == 0
                    &&& final(self).started() == old(self).started()
                    &&& final(self).in_flight() == 0
                    &&& final(self).pending() == old(self).pending()
                    &&& log_names(old(self).log()).to_multiset() == old(self).names().to_multiset()
                },
            },
    {
        if self.next < self.names.len() && self.in_flight < self.limit {
            let name = self.names[self.next].clone();
            let ghost ns = self.names();
            let ghost before = self.pending@;
            let ghost logm = log_names(self.log@).to_multiset();
            assert(ns.subrange(0, self.next + 1) =~= ns.subrange(0, self.next as int).push(name@));
            self.next = self.next + 1;
            self.in_flight = self.in_flight + 1;
            proof {
                self.pending@ = self.pending@.insert(name@);
                assert(self.pending@.add(logm) =~= before.add(logm).insert(name@));
            }
            FetchStep::Lookup(name)
        } else if self.in_flight > 0 {
            FetchStep::Wait
        } else {
            proof {
                assert(self.pending@ =~= Multiset::empty());
                assert(self.names().subrange(0, self.next as int) =~= self.names());
                assert(self.pending@.add(log_names(self.log@).to_multiset()) =~= log_names(
                    self.log@,
                ).to_multiset());
            }
            FetchStep::Finished
        }
    }

    /// Reports a finished lookup of `name`: `Some` with the version found, or `None`
    /// where it failed. Its place is freed; a success is recorded, a failure skipped.
    pub fn complete(&mut self, name: String, version: Option<String>)
        requires
            old(self).wf(),
            old(self).pending().contains(name@),
        ensures
            final(self).wf(),
            final(self).names() == old(self).names(),
            final(self).limit() == old(self).limit(),
            final(self).started() == old(self).started(),
            final(self).in_flight() == old(self).in_flight() - 1,
            final(self).log() == old(self).log().push((name@, opt_view(version))),
            final(self).pending() == old(self).pending().remove(name@),
    {
        let ghost entry = (name@, opt_view(version));
        proof {
            assert(self.pending@.count(name@) > 0);
        }
        self.in_flight = self.in_flight - 1;
        proof {
            let ghost before = self.log@;
            let ghost p0 = self.pending@;
            self.log@ = self.log@.push(entry);
            assert(self.log@.drop_last() =~= before);
            assert(log_names(self.log@) =~= log_names(before).push(name@));
            self.pending@ = self.pending@.remove(name@);
            assert(self.pending@.add(log_names(self.log@).to_multiset()) =~= p0.add(
                log_names(before).to_multiset(),
            ));
        }
        match version {
            Some(v) => self.latest.insert(name, v),
            None => {},
        }
    }

    /// The versions found so far.
    pub fn into_latest(self) -> (r: Resolutions)
        requires
            self.wf(),
        ensures
            r@ == outcomes_map(self.log()),
    {
        self.latest
    }
}

/// The names that the manifest's lookups are for: the required dependencies, then
/// each optional group's, in order.
pub open spec fn names_of(ds: DepsView) -> Seq<Seq<char>> {
    ds.map_values(|d: crate::specifier::DepView| d.0)
}

pub open spec fn group_names(gs: Seq<(Seq<char>, DepsView)>) -> Seq<Seq<char>>
    decreases gs.len(),
{
    if gs.len() == 0 {
        Seq::empty()
    } else {
        group_names(gs.drop_last()) + names_of(gs.last().1)
    }
}

pub open spec fn all_names(m: crate::manifest::ManifestView) -> Seq<Seq<char>> {
    names_of(m.0) + group_names(m.1)
}

impl PypiDeps {
    /// Every dependency name, required ones first, then each optional group's.
    pub fn names(&self) -> (r: Vec<String>)
        ensures
            r@.map_values(|s: String| s@) == all_names(self@),
    {
        let mut out: Vec<String> = Vec::new();
        let mut i: usize = 0;
        let req = &self.dependencies.0;
        while i < req.len()
            invariant
                i <= req.len(),
                out@.map_values(|s: String| s@) =~= names_of(self@.0).subrange(0, i as int),
                self@.0 == crate::manifest::group_view(req@),
            decreases req.len() - i,
        {
            let ghost before = out@;
            out.push(req[i].0.clone());
            assert(out@.map_values(|s: String| s@) =~= before.map_values(|s: String| s@).push(
                req@[i as int].0@,
            ));
            assert(names_of(self@.0).subrange(0, i + 1) =~= names_of(self@.0).subrange(
                0,
                i as int,
            ).push(req@[i as int].0@));
            i = i + 1;
        }
        let mut g: usize = 0;
        let groups = &self.optional_dependencies;
        while g < groups.len()
            invariant
                g <= groups.len(),
                self@.1 == crate::manifest::groups_view(groups@),
                out@.map_values(|s: String| s@) =~= names_of(self@.0) + group_names(
                    self@.1.subrange(0, g as int),
                ),
            decreases groups.len() - g,
        {
            let ds = &groups[g].1.0;
            let ghost base = out@.map_values(|s: String| s@);
            let mut j: usize = 0;
            while j < ds.len()
                invariant
                    j <= ds.len(),
                    g < groups.len(),
                    ds@ == groups@[g as int].1.0@,
                    out@.map_values(|s: String| s@) =~= base + names_of(
                        crate::manifest::group_view(ds@),
                    ).subrange(0, j as int),
                decreases ds.len() - j,
            {
                let ghost before = out@;
                out.push(ds[j].0.clone());
                let ghost ns = names_of(crate::manifest::group_view(ds@));
                assert(out@.map_values(|s: String| s@) =~= before.map_values(|s: String| s@).push(
                    ds@[j as int].0@,
                ));
                assert(ns.subrange(0, j + 1) =~= ns.subrange(0, j as int).push(ds@[j as int].0@));
                j = j + 1;
            }
            assert(self@.1.subrange(0, g + 1).drop_last() =~= self@.1.subrange(0, g as int));
            assert(names_of(crate::manifest::group_view(ds@)).subrange(0, j as int) =~= names_of(
                crate::manifest::group_view(ds@),
            ));
            g = g + 1;
        }
        assert(self@.1.subrange(0, g as int) =~= self@.1);
        out
    }
}

} // verus!

//! Dependency specifiers: `name`, or `name <op> version`.
use vstd::prelude::*;

verus! {

/// A specifier as plain values: the package name and, if any, the operator and version.
pub type DepView = (Seq<char>, Option<(Seq<char>, Seq<char>)>);

/// One dependency: its name and, if constrained, `(operator, version)`.
pub type Dep = (String, Option<(String, String)>);

pub open spec fn dep_view(d: Dep) -> DepView {
    (
        d.0@,
        match d.1 {
            Some((o, v)) => Some((o@, v@)),
            None => None,
        },
    )
}

/// Why a specifier failed to parse.
#[derive(Debug, Clone, Copy, PartialEq, Eq)]
pub enum Malformed {
    /// An operator stands with nothing before it.
    MissingName,
    /// An operator stands with nothing after it.
    MissingVersion,
}

/// Unicode White_Space, the set that `char::is_whitespace` tests.
pub open spec fn is_white(c: char) -> bool {
    let u = c as u32;
    (0x9 <= u && u <= 0xd) || u == 0x20 || u == 0x85 || u == 0xa0 || u == 0x1680 || (0x2000 <= u
        && u <= 0x200a) || u == 0x2028 || u == 0x2029 || u == 0x202f || u == 0x205f || u == 0x3000
}

/// The characters that trimming removes: whitespace, or the double quote.
pub open spec fn strips(c: char, white: bool) -> bool {
    if white {
        is_white(c)
    } else {
        c == '"'
    }
}

/// The first index in `lo..hi` whose character is not stripped (`hi` if none).
pub open spec fn skip_front(s: Seq<char>, lo: int, hi: int, white: bool) -> int
    decreases hi - lo,
{
    if lo < hi && strips(s[lo], white) {
        skip_front(s, lo + 1, hi, white)
    } else {
        lo
    }
}

/// One past the last index in `lo..hi` whose character is not stripped (`lo` if none).
pub open spec fn skip_back(s: Seq<char>, lo: int, hi: int, white: bool) -> int
    decreases hi - lo,
{
    if lo < hi && strips(s[hi - 1], white) {
        skip_back(s, lo, hi - 1, white)
    } else {
        hi
    }
}

/// `s[lo..hi]` with the stripped characters removed from both ends.
pub open spec fn trimmed(s: Seq<char>, lo: int, hi: int, white: bool) -> Seq<char> {
    let a = skip_front(s, lo, hi, white);
    s.subrange(a, skip_back(s, a, hi, white))
}

pub open spec fn occurs_at(s: Seq<char>, p: Seq<char>, i: int) -> bool {
    0 <= i && i + p.len() <= s.len() && s.subrange(i, i + p.len()) == p
}

pub open spec fn contains(s: Seq<char>, p: Seq<char>) -> bool {
    exists|i: int| occurs_at(s, p, i)
}

/// The first position at or after `i` where `p` occurs in `s`.
pub open spec fn find_from(s: Seq<char>, p: Seq<char>, i: int) -> Option<int>
    decreases s.len() + 1 - i,
{
    if i < 0 || i + p.len() > s.len() {
        None
    } else if occurs_at(s, p, i) {
        Some(i)
    } else {
        find_from(s, p, i + 1)
    }
}

/// The version operators, most specific first.
pub open spec fn op_text(k: int) -> Seq<char> {
    if k == 0 {
        seq!['=', '=', '=']
    } else if k == 1 {
        seq!['~', '=']
    } else if k == 2 {
        seq!['=', '=']
    } else if k == 3 {
        seq!['!', '=']
    } else if k == 4 {
        seq!['<', '=']
    } else if k == 5 {
        seq!['>', '=']
    } else if k == 6 {
        seq!['<']
    } else {
        seq!['>']
    }
}

pub const N_OPS: usize = 8;

/// The first operator, from the `k`-th on, that occurs anywhere in `s`.
pub open spec fn op_from(s: Seq<char>, k: int) -> Option<int>
    decreases N_OPS - k,
{
    if k < 0 || k >= N_OPS {
        None
    } else if find_from(s, op_text(k), 0) is Some {
        Some(k)
    } else {
        op_from(s, k + 1)
    }
}

/// What a specifier line denotes: quotes trimmed, then split on the first occurrence of
/// the most specific operator that occurs, each side trimmed of whitespace.
pub open spec fn parse_spec(line: Seq<char>) -> Result<DepView, Malformed> {
    let lo = skip_front(line, 0, line.len() as int, false);
    let t = line.subrange(lo, skip_back(line, lo, line.len() as int, false));
    match op_from(t, 0) {
        None => Ok((t, None)),
        Some(k) => {
            let op = op_text(k);
            let i = find_from(t, op, 0)->Some_0;
            let name = trimmed(t, 0, i, true);
            let version = trimmed(t, i + op.len(), t.len() as int, true);
            if name.len() == 0 {
                Err(Malformed::MissingName)
            } else if version.len() == 0 {
                Err(Malformed::MissingVersion)
            } else {
                Ok((name, Some((op, version))))
            }
        },
    }
}

fn is_white_char(c: char) -> (r: bool)
    ensures
        r == is_white(c),
{
    let u = c as u32;
    (0x9 <= u && u <= 0xd) || u == 0x20 || u == 0x85 || u == 0xa0 || u == 0x1680 || (0x2000 <= u
        && u <= 0x200a) || u == 0x2028 || u == 0x2029 || u == 0x202f || u == 0x205f || u == 0x3000
}

fn strips_char(c: char, white: bool) -> (r: bool)
    ensures
        r == strips(c, white),
{
    if white {
        is_white_char(c)
    } else {
        c == '"'
    }
}

fn skip_front_exec(s: &str, lo: usize, hi: usize, white: bool) -> (r: usize)
    requires
        lo <= hi <= s@.len(),
    ensures
        r == skip_front(s@, lo as int, hi as int, white),
        lo <= r <= hi,
{
    let mut i = lo;
    while i < hi && strips_char(s.get_char(i), white)
        invariant
            lo <= i <= hi <= s@.len(),
            skip_front(s@, lo as int, hi as int, white) == skip_front(s@, i as int, hi as int, white),
        decreases hi - i,
    {
        i = i + 1;
    }
    i
}

fn skip_back_exec(s: &str, lo: usize, hi: usize, white: bool) -> (r: usize)
    requires
        lo <= hi <= s@.len(),
    ensures
        r == skip_back(s@, lo as int, hi as int, white),
        lo <= r <= hi,
{
    let mut j = hi;
    while lo < j && strips_char(s.get_char(j - 1), white)
        invariant
            lo <= j <= hi <= s@.len(),
            skip_back(s@, lo as int, hi as int, white) == skip_back(s@, lo as int, j as int, white),
        decreases j - lo,
    {
        j = j - 1;
    }
    j
}

/// Whether `p` occurs in `s` at `i`; `sn` and `pn` are their lengths.
fn occurs_at_exec(s: &str, p: &str, i: usize, sn: usize, pn: usize) -> (r: bool)
    requires
        sn == s@.len(),
        pn == p@.len(),
        i + pn <= sn,
    ensures
        r == occurs_at(s@, p@, i as int),
{
    let mut j: usize = 0;
    while j < pn
        invariant
            j <= pn,
            i + pn <= sn == s@.len(),
            pn == p@.len(),
            s@.subrange(i as int, i + j) =~= p@.subrange(0, j as int),
        decreases pn - j,
    {
        if s.get_char(i + j) != p.get_char(j) {
            assert(s@.subrange(i as int, i + pn)[j as int] != p@[j as int]);
            return false;
        }
        j = j + 1;
        assert(s@.subrange(i as int, i + j) =~= p@.subrange(0, j as int));
    }
    assert(p@.subrange(0, pn as int) =~= p@);
    true
}

/// The first position where `p` occurs in `s`.
fn find_exec(s: &str, p: &str) -> (r: Option<usize>)
    ensures
        match r {
            Some(i) => find_from(s@, p@, 0) == Some(i as int),
            None => find_from(s@, p@, 0) is None,
        },
{
    let sn = s.unicode_len();
    let pn = p.unicode_len();
    if pn > sn {
        return None;
    }
    let mut i: usize = 0;
    while i <= sn - pn
        invariant
            sn == s@.len(),
            pn == p@.len(),
            pn <= sn,
            i <= sn - pn,
            find_from(s@, p@, 0) == find_from(s@, p@, i as int),
        decreases sn - pn - i,
    {
        if occurs_at_exec(s, p, i, sn, pn) {
            return Some(i);
        }
        if i == sn - pn {
            assert(find_from(s@, p@, i + 1) is None);
            return None;
        }
        i = i + 1;
    }
    None
}

/// The `k`-th operator.
fn op_str(k: usize) -> (r: &'static str)
    requires
        k < N_OPS,
    ensures
        r@ == op_text(k as int),
{
    proof {
        reveal_strlit("===");
        reveal_strlit("~=");
        reveal_strlit("==");
        reveal_strlit("!=");
        reveal_strlit("<=");
        reveal_strlit(">=");
        reveal_strlit("<");
        reveal_strlit(">");
    }
    let r = if k == 0 {
        "==="
    } else if k == 1 {
        "~="
    } else if k == 2 {
        "=="
    } else if k == 3 {
        "!="
    } else if k == 4 {
        "<="
    } else if k == 5 {
        ">="
    } else if k == 6 {
        "<"
    } else {
        ">"
    };
    assert(r@ =~= op_text(k as int));
    r
}

/// The first operator from the `k`-th on that occurs in `t`, with its first position.
fn first_op(t: &str, k: usize) -> (r: Option<(usize, usize)>)
    requires
        k <= N_OPS,
    ensures
        match r {
            Some((j, i)) => j < N_OPS && op_from(t@, k as int) == Some(j as int) && find_from(
                t@,
                op_text(j as int),
                0,
            ) == Some(i as int),
            None => op_from(t@, k as int) is None,
        },
    decreases N_OPS - k,
{
    if k >= N_OPS {
        return None;
    }
    match find_exec(t, op_str(k)) {
        Some(i) => Some((k, i)),
        None => first_op(t, k + 1),
    }
}

proof fn lemma_find_some(s: Seq<char>, p: Seq<char>, i: int)
    requires
        find_from(s, p, i) is Some,
    ensures
        occurs_at(s, p, find_from(s, p, i)->Some_0),
        i <= find_from(s, p, i)->Some_0,
    decreases s.len() + 1 - i,
{
    if !(i < 0 || i + p.len() > s.len()) && !occurs_at(s, p, i) {
        lemma_find_some(s, p, i + 1);
    }
}

proof fn lemma_find_first(s: Seq<char>, p: Seq<char>, i: int, m: int)
    requires
        0 <= i <= m,
        occurs_at(s, p, m),
        forall|j: int| i <= j < m ==> !occurs_at(s, p, j),
    ensures
        find_from(s, p, i) == Some(m),
    decreases m - i,
{
    if i < m {
        lemma_find_first(s, p, i + 1, m);
    }
}

proof fn lemma_op_from(s: Seq<char>, j: int, k: int)
    requires
        0 <= j <= k < N_OPS,
        forall|l: int| j <= l < k ==> find_from(s, op_text(l), 0) is None,
        find_from(s, op_text(k), 0) is Some,
    ensures
        op_from(s, j) == Some(k),
    decreases k - j,
{
    if j < k {
        lemma_op_from(s, j + 1, k);
    }
}

proof fn lemma_op_from_none(s: Seq<char>, j: int)
    requires
        0 <= j <= N_OPS,
        forall|l: int| j <= l < N_OPS ==> find_from(s, op_text(l), 0) is None,
    ensures
        op_from(s, j) is None,
    decreases N_OPS - j,
{
    if j < N_OPS {
        lemma_op_from_none(s, j + 1);
    }
}

proof fn lemma_absent_not_found(s: Seq<char>, p: Seq<char>)
    requires
        !contains(s, p),
    ensures
        find_from(s, p, 0) is None,
{
    if find_from(s, p, 0) is Some {
        lemma_find_some(s, p, 0);
    }
}

/// Parses one dependency line (already taken out of the manifest's array).
pub fn parse_specifier(line: &str) -> (r: Result<Dep, Malformed>)
    ensures
        match parse_spec(line@) {
            Ok(v) => r is Ok && dep_view(r->Ok_0) == v,
            Err(e) => r == Err::<Dep, Malformed>(e),
        },
{
    let n = line.unicode_len();
    let lo = skip_front_exec(line, 0, n, false);
    let hi = skip_back_exec(line, lo, n, false);
    let t = line.substring_char(lo, hi);
    let tn = hi - lo;
    match first_op(t, 0) {
        None => Ok((String::from_str(t), None)),
        Some((k, i)) => {
            let op = op_str(k);
            let on = op.unicode_len();
            proof {
                lemma_find_some(t@, op@, 0);
            }
            let a = skip_front_exec(t, 0, i, true);
            let b = skip_back_exec(t, a, i, true);
            let c = skip_front_exec(t, i + on, tn, true);
            let d = skip_back_exec(t, c, tn, true);
            if a == b {
                Err(Malformed::MissingName)
            } else if c == d {
                Err(Malformed::MissingVersion)
            } else {
                let name = String::from_str(t.substring_char(a, b));
                let version = String::from_str(t.substring_char(c, d));
                Ok((name, Some((String::from_str(op), version))))
            }
        },
    }
}

/// How one dependency is written in the output: `name op version`, or the bare name.
pub open spec fn entry_text(d: DepView) -> Seq<char> {
    match d.1 {
        Some((o, v)) => d.0 + seq![' '] + o + seq![' '] + v,
        None => d.0,
    }
}

/// Writes one dependency as `name op version`, or as the bare name.
pub fn render_entry(d: &Dep) -> (r: String)
    ensures
        r@ == entry_text(dep_view(*d)),
{
    let mut r = d.0.clone();
    match &d.1 {
        Some((o, v)) => {
            proof {
                reveal_strlit(" ");
            }
            assert(" "@ =~= seq![' ']);
            r.append(" ");
            r.append(o.as_str());
            r.append(" ");
            r.append(v.as_str());
        },
        None => {},
    }
    r
}

proof fn lemma_skip_front_run(s: Seq<char>, lo: int, hi: int, m: int, white: bool)
    requires
        0 <= lo <= m <= hi <= s.len(),
        forall|k: int| lo <= k < m ==> strips(s[k], white),
        m < hi ==> !strips(s[m], white),
    ensures
        skip_front(s, lo, hi, white) == m,
    decreases m - lo,
{
    if lo < m {
        lemma_skip_front_run(s, lo + 1, hi, m, white);
    }
}

proof fn lemma_skip_back_run(s: Seq<char>, lo: int, hi: int, m: int, white: bool)
    requires
        0 <= lo <= m <= hi <= s.len(),
        forall|k: int| m <= k < hi ==> strips(s[k], white),
        lo < m ==> !strips(s[m - 1], white),
    ensures
        skip_back(s, lo, hi, white) == m,
    decreases hi - m,
{
    if m < hi {
        lemma_skip_back_run(s, lo, hi - 1, m, white);
    }
}

/// A line written `<name><w1><op><w2><version>`, where name and version are non-empty,
/// hold no operator, and carry no whitespace or quote at their outer ends, and `w1`,
/// `w2` are whitespace only, parses into exactly name, operator and version, and is
/// rendered as `name op version`. Left out are the lines in which the operators meet
/// the name or version to form a more specific operator, or an earlier `op`
/// (`a=` `==` `1`, `a~` `==` `1`).
pub proof fn lemma_parse_joined(
    name: Seq<char>,
    w1: Seq<char>,
    k: int,
    w2: Seq<char>,
    version: Seq<char>,
)
    requires
        0 <= k < N_OPS,
        name.len() > 0,
        version.len() > 0,
        forall|j: int| 0 <= j < N_OPS ==> !contains(name, op_text(j)) && !contains(version, op_text(j)),
        !is_white(name[0]) && !is_white(name.last()) && name[0] != '"',
        !is_white(version[0]) && !is_white(version.last()) && version.last() != '"',
        forall|i: int| 0 <= i < w1.len() ==> is_white(w1[i]),
        forall|i: int| 0 <= i < w2.len() ==> is_white(w2[i]),
        forall|j: int| 0 <= j < k ==> !contains(name + w1 + op_text(k) + w2 + version, op_text(j)),
        forall|i: int|
            0 <= i < name.len() + w1.len() ==> !occurs_at(
                name + w1 + op_text(k) + w2 + version,
                op_text(k),
                i,
            ),
    ensures
        parse_spec(name + w1 + op_text(k) + w2 + version) == Ok::<DepView, Malformed>(
            (name, Some((op_text(k), version))),
        ),
        entry_text((name, Some((op_text(k), version)))) == name + seq![' '] + op_text(k) + seq![' ']
            + version,
{
    let op = op_text(k);
    let s = name + w1 + op + w2 + version;
    let n = name.len() as int;
    let a = n + w1.len();
    let b = a + op.len();
    let c = b + w2.len();
    let len = s.len() as int;
    assert(s[0] == name[0]);
    assert(s[len - 1] == version.last());
    assert(skip_front(s, 0, len, false) == 0);
    assert(skip_back(s, 0, len, false) == len);
    assert(s.subrange(0, len) =~= s);
    assert forall|l: int| 0 <= l < k implies find_from(s, op_text(l), 0) is None by {
        lemma_absent_not_found(s, op_text(l));
    }
    assert(s.subrange(a, b) =~= op);
    lemma_find_first(s, op, 0, a);
    lemma_op_from(s, 0, k);
    assert forall|i: int| n <= i < a implies strips(s[i], true) by {
        assert(s[i] == w1[i - n]);
    }
    assert(s[n - 1] == name.last());
    lemma_skip_front_run(s, 0, a, 0, true);
    lemma_skip_back_run(s, 0, a, n, true);
    assert(s.subrange(0, n) =~= name);
    assert forall|i: int| b <= i < c implies strips(s[i], true) by {
        assert(s[i] == w2[i - b]);
    }
    assert(s[c] == version[0]);
    lemma_skip_front_run(s, b, len, c, true);
    lemma_skip_back_run(s, c, len, len, true);
    assert(s.subrange(c, len) =~= version);
}

/// A bare name in which no operator occurs, with no quote at its ends, parses as that
/// name with no constraint, and is rendered as the name alone.
pub proof fn lemma_parse_bare(name: Seq<char>)
    requires
        forall|j: int| 0 <= j < N_OPS ==> !contains(name, op_text(j)),
        name.len() > 0 ==> name[0] != '"' && name.last() != '"',
    ensures
        parse_spec(name) == Ok::<DepView, Malformed>((name, None)),
        entry_text((name, None)) == name,
{
    let len = name.len() as int;
    assert(skip_front(name, 0, len, false) == 0);
    assert(skip_back(name, 0, len, false) == len);
    assert(name.subrange(0, len) =~= name);
    assert forall|l: int| 0 <= l < N_OPS implies find_from(name, op_text(l), 0) is None by {
        lemma_absent_not_found(name, op_text(l));
    }
    lemma_op_from_none(name, 0);
}

} // verus!

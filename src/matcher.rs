use vstd::prelude::*;
use crate::config::MatchMode;
use crate::targets::{SearchTarget, TargetSpec, target_views};

verus! {

pub open spec fn starts_with(s: Seq<char>, p: Seq<char>) -> bool {
    p.len() <= s.len() && s.subrange(0, p.len() as int) == p
}

pub open spec fn ends_with(s: Seq<char>, p: Seq<char>) -> bool {
    p.len() <= s.len() && s.subrange(s.len() - p.len(), s.len() as int) == p
}

pub open spec fn occurs_in(s: Seq<char>, p: Seq<char>) -> bool {
    exists|i: int| 0 <= i && i + p.len() <= s.len() && #[trigger] s.subrange(i, i + p.len()) == p
}

/// Relies on `str::starts_with` with a `&str` pattern: whether `p` is a prefix of `s`.
#[verifier::external_body]
fn has_prefix(s: &str, p: &str) -> (r: bool)
    ensures
        r == starts_with(s@, p@),
{
    s.starts_with(p)
}

/// Relies on `str::ends_with` with a `&str` pattern: whether `p` is a suffix of `s`.
#[verifier::external_body]
fn has_suffix(s: &str, p: &str) -> (r: bool)
    ensures
        r == ends_with(s@, p@),
{
    s.ends_with(p)
}

/// Relies on `str::contains` with a `&str` pattern: whether `p` occurs in `s`.
#[verifier::external_body]
fn has_infix(s: &str, p: &str) -> (r: bool)
    ensures
        r == occurs_in(s@, p@),
{
    s.contains(p)
}

/// Whether an address hits a target: prefix mode compares the full pattern with
/// the start, suffix mode the pattern with the end, contains mode anywhere.
pub open spec fn hits(addr: Seq<char>, t: TargetSpec, m: MatchMode) -> bool {
    match m {
        MatchMode::Prefix => starts_with(addr, t.full),
        MatchMode::Suffix => ends_with(addr, t.raw),
        MatchMode::Contains => occurs_in(addr, t.raw),
    }
}

/// The first target, in list order, that the address hits.
pub open spec fn first_hit(addr: Seq<char>, ts: Seq<TargetSpec>, m: MatchMode) -> Option<int> {
    if exists|i: int| 0 <= i < ts.len() && hits(addr, #[trigger] ts[i], m) {
        let i = choose|i: int|
            0 <= i < ts.len() && hits(addr, #[trigger] ts[i], m) && forall|j: int|
                0 <= j < i ==> !hits(addr, #[trigger] ts[j], m);
        Some(i)
    } else {
        None
    }
}

pub proof fn lemma_first_hit_unique(addr: Seq<char>, ts: Seq<TargetSpec>, m: MatchMode, i: int)
    requires
        0 <= i < ts.len(),
        hits(addr, ts[i], m),
        forall|j: int| 0 <= j < i ==> !hits(addr, #[trigger] ts[j], m),
    ensures
        first_hit(addr, ts, m) == Some(i),
{
    let k = choose|k: int|
        0 <= k < ts.len() && hits(addr, #[trigger] ts[k], m) && forall|j: int|
            0 <= j < k ==> !hits(addr, #[trigger] ts[j], m);
    if k < i {
        assert(!hits(addr, ts[k], m));
    }
    if i < k {
        assert(!hits(addr, ts[i], m));
    }
}

proof fn lemma_least_hit(addr: Seq<char>, ts: Seq<TargetSpec>, m: MatchMode, k: int)
    requires
        0 <= k < ts.len(),
        hits(addr, ts[k], m),
    ensures
        exists|i: int|
            0 <= i < ts.len() && hits(addr, #[trigger] ts[i], m) && forall|j: int|
                0 <= j < i ==> !hits(addr, #[trigger] ts[j], m),
    decreases k,
{
    if exists|j: int| 0 <= j < k && hits(addr, #[trigger] ts[j], m) {
        let j = choose|j: int| 0 <= j < k && hits(addr, #[trigger] ts[j], m);
        lemma_least_hit(addr, ts, m, j);
    } else {
        assert(forall|j: int| 0 <= j < k ==> !hits(addr, #[trigger] ts[j], m));
    }
}

/// The first hit is a target of the list that the address hits, and no
/// earlier target is hit.
pub proof fn lemma_first_hit_is_least(addr: Seq<char>, ts: Seq<TargetSpec>, m: MatchMode)
    ensures
        first_hit(addr, ts, m) matches Some(i) ==> {
            &&& 0 <= i < ts.len()
            &&& hits(addr, ts[i], m)
            &&& forall|j: int| 0 <= j < i ==> !hits(addr, #[trigger] ts[j], m)
        },
{
    if exists|i: int| 0 <= i < ts.len() && hits(addr, #[trigger] ts[i], m) {
        let k = choose|i: int| 0 <= i < ts.len() && hits(addr, #[trigger] ts[i], m);
        lemma_least_hit(addr, ts, m, k);
    }
}

/// Whether the address hits the target under the match mode.
pub fn target_hit(addr: &str, t: &SearchTarget, m: MatchMode) -> (r: bool)
    ensures
        r == hits(addr@, t@, m),
{
    match m {
        MatchMode::Prefix => has_prefix(addr, t.full.as_str()),
        MatchMode::Suffix => has_suffix(addr, t.raw.as_str()),
        MatchMode::Contains => has_infix(addr, t.raw.as_str()),
    }
}

/// The index of the first target, in list order, that the address hits.
pub fn first_match(addr: &str, targets: &Vec<SearchTarget>, m: MatchMode) -> (r: Option<usize>)
    ensures
        match r {
            Some(i) => i < targets.len() && first_hit(addr@, target_views(targets@), m) == Some(i as int),
            None => first_hit(addr@, target_views(targets@), m) is None,
        },
{
    let ghost tv = target_views(targets@);
    let mut i: usize = 0;
    while i < targets.len()
        invariant
            i <= targets.len(),
            tv == target_views(targets@),
            forall|j: int| 0 <= j < i ==> !hits(addr@, #[trigger] tv[j], m),
        decreases targets.len() - i,
    {
        if target_hit(addr, &targets[i], m) {
            proof {
                lemma_first_hit_unique(addr@, tv, m, i as int);
            }
            return Some(i);
        }
        i = i + 1;
    }
    None
}

} // verus!

use vstd::prelude::*;
use crate::config::{
    AddressKind, MatchMode, alphabet, bech32_alphabet, address_prefix, uses_bech32, expected_trials, charset,
    is_bech32, pfx, exp,
};

verus! {

/// What `str::trim` gives for a text.
pub uninterp spec fn trimmed(s: Seq<char>) -> Seq<char>;

/// What `str::to_lowercase` gives for a text.
pub uninterp spec fn lowercased(s: Seq<char>) -> Seq<char>;

/// Relies on `str::trim`: the text without leading and trailing whitespace,
/// a function of the characters alone.
#[verifier::external_body]
fn trim_text(s: &str) -> (r: &str)
    ensures
        r@ == trimmed(s@),
{
    s.trim()
}

/// Relies on `str::to_lowercase`: the Unicode lowercase of the text, a function
/// of the characters alone.
#[verifier::external_body]
fn lowercase_text(s: &str) -> (r: String)
    ensures
        r@ == lowercased(s@),
{
    s.to_lowercase()
}

/// A compiled match target: the normalized pattern, and the pattern that a
/// candidate address is compared with in prefix mode.
pub struct SearchTarget {
    pub raw: String,
    pub full: String,
}

pub struct TargetSpec {
    pub raw: Seq<char>,
    pub full: Seq<char>,
}

impl View for SearchTarget {
    type V = TargetSpec;

    open spec fn view(&self) -> TargetSpec {
        TargetSpec { raw: self.raw@, full: self.full@ }
    }
}

impl Clone for SearchTarget {
    fn clone(&self) -> (r: SearchTarget)
        ensures
            r@ == self@,
    {
        SearchTarget { raw: self.raw.clone(), full: self.full.clone() }
    }
}

pub open spec fn target_views(ts: Seq<SearchTarget>) -> Seq<TargetSpec> {
    ts.map_values(|t: SearchTarget| t@)
}

pub open spec fn string_views(ss: Seq<String>) -> Seq<Seq<char>> {
    ss.map_values(|s: String| s@)
}

/// Every character of `p` belongs to the alphabet of the address kind.
pub open spec fn is_valid_pattern(p: Seq<char>, a: AddressKind) -> bool {
    forall|i: int| 0 <= i < p.len() ==> alphabet(a).contains(#[trigger] p[i])
}

/// Bech32 patterns are lowercased; base58 patterns keep their case.
pub open spec fn normalize(seg: Seq<char>, a: AddressKind) -> Seq<char> {
    if uses_bech32(a) {
        lowercased(seg)
    } else {
        seg
    }
}

pub open spec fn validated(seg: Seq<char>, a: AddressKind) -> Option<Seq<char>> {
    if is_valid_pattern(normalize(seg, a), a) {
        Some(normalize(seg, a))
    } else {
        None
    }
}

pub open spec fn full_pattern(raw: Seq<char>, a: AddressKind, m: MatchMode) -> Seq<char> {
    if m == MatchMode::Prefix {
        address_prefix(a) + raw
    } else {
        raw
    }
}

pub open spec fn target_of(raw: Seq<char>, a: AddressKind, m: MatchMode) -> TargetSpec {
    TargetSpec { raw, full: full_pattern(raw, a, m) }
}

/// The pieces of `s` between commas, as `str::split(',')` gives them.
pub open spec fn split_commas(s: Seq<char>) -> Seq<Seq<char>>
    decreases s.len(),
{
    if s.len() == 0 {
        seq![Seq::<char>::empty()]
    } else {
        let init = split_commas(s.drop_last());
        if s.last() == ',' {
            init.push(Seq::<char>::empty())
        } else {
            init.update(init.len() - 1, init.last().push(s.last()))
        }
    }
}

/// A piece that, trimmed, is not empty and passes validation.
pub open spec fn piece_accepted(piece: Seq<char>, a: AddressKind) -> bool {
    trimmed(piece).len() > 0 && validated(trimmed(piece), a) is Some
}

/// A piece that, trimmed, is not empty and fails validation.
pub open spec fn piece_rejected(piece: Seq<char>, a: AddressKind) -> bool {
    trimmed(piece).len() > 0 && validated(trimmed(piece), a) is None
}

/// The targets that the pieces compile to, in order.
pub open spec fn compile_pieces(pieces: Seq<Seq<char>>, a: AddressKind, m: MatchMode) -> Seq<TargetSpec>
    decreases pieces.len(),
{
    if pieces.len() == 0 {
        seq![]
    } else {
        let rest = compile_pieces(pieces.drop_last(), a, m);
        let p = pieces.last();
        if piece_accepted(p, a) {
            rest.push(target_of(validated(trimmed(p), a)->0, a, m))
        } else {
            rest
        }
    }
}

/// The trimmed pieces that are dropped for holding a character outside the alphabet.
pub open spec fn rejected_pieces(pieces: Seq<Seq<char>>, a: AddressKind) -> Seq<Seq<char>>
    decreases pieces.len(),
{
    if pieces.len() == 0 {
        seq![]
    } else {
        let rest = rejected_pieces(pieces.drop_last(), a);
        let p = pieces.last();
        if piece_rejected(p, a) {
            rest.push(trimmed(p))
        } else {
            rest
        }
    }
}

pub open spec fn compile_text(raw: Seq<char>, a: AddressKind, m: MatchMode) -> Seq<TargetSpec> {
    compile_pieces(split_commas(raw), a, m)
}

pub open spec fn rejected_text(raw: Seq<char>, a: AddressKind) -> Seq<Seq<char>> {
    rejected_pieces(split_commas(raw), a)
}

/// The least expected number of trials over the targets; 1 for no target.
pub open spec fn min_expected(ts: Seq<TargetSpec>, a: AddressKind) -> nat
    decreases ts.len(),
{
    if ts.len() == 0 {
        1
    } else if ts.len() == 1 {
        expected_trials(ts[0].raw.len(), a)
    } else {
        let rest = min_expected(ts.drop_last(), a);
        let e = expected_trials(ts.last().raw.len(), a);
        if e < rest {
            e
        } else {
            rest
        }
    }
}

/// Whether `c` belongs to the alphabet of the address kind.
pub fn in_alphabet(c: char, a: AddressKind) -> (r: bool)
    ensures
        r == alphabet(a).contains(c),
{
    let cs = charset(a);
    let n = cs.unicode_len();
    let mut i: usize = 0;
    while i < n
        invariant
            i <= n,
            n == cs@.len(),
            cs@ == alphabet(a),
            forall|j: int| 0 <= j < i ==> cs@[j] != c,
        decreases n - i,
    {
        if cs.get_char(i) == c {
            return true;
        }
        i = i + 1;
    }
    false
}

/// Whether every character of `p` belongs to the alphabet of the address kind.
pub fn check_alphabet(p: &str, a: AddressKind) -> (r: bool)
    ensures
        r == is_valid_pattern(p@, a),
{
    let n = p.unicode_len();
    let mut i: usize = 0;
    while i < n
        invariant
            i <= n,
            n == p@.len(),
            forall|j: int| 0 <= j < i ==> alphabet(a).contains(#[trigger] p@[j]),
        decreases n - i,
    {
        if !in_alphabet(p.get_char(i), a) {
            return false;
        }
        i = i + 1;
    }
    true
}

/// The normalized pattern, or `None` where a character of it lies outside the
/// alphabet of the address kind.
pub fn validate(s: &str, a: AddressKind) -> (r: Option<String>)
    ensures
        r is Some <==> validated(s@, a) is Some,
        r is Some ==> r->0@ == validated(s@, a)->0,
{
    if is_bech32(a) {
        let low = lowercase_text(s);
        if check_alphabet(low.as_str(), a) {
            Some(low)
        } else {
            None
        }
    } else {
        if check_alphabet(s, a) {
            Some(String::from_str(s))
        } else {
            None
        }
    }
}

/// The target for a normalized pattern.
pub fn make_target(raw: String, a: AddressKind, m: MatchMode) -> (r: SearchTarget)
    ensures
        r@ == target_of(raw@, a, m),
{
    let full = match m {
        MatchMode::Prefix => String::from_str(pfx(a)).concat(raw.as_str()),
        _ => raw.clone(),
    };
    SearchTarget { raw, full }
}

/// The pieces of `s` between commas.
pub fn split_commas_text(s: &str) -> (r: Vec<String>)
    ensures
        string_views(r@) == split_commas(s@),
{
    let n = s.unicode_len();
    let mut pieces: Vec<String> = Vec::new();
    let mut cur = String::new();
    let mut i: usize = 0;
    proof {
        assert(s@.subrange(0, 0) =~= Seq::<char>::empty());
        assert(string_views(pieces@).push(cur@) =~= split_commas(s@.subrange(0, 0)));
    }
    while i < n
        invariant
            i <= n,
            n == s@.len(),
            string_views(pieces@).push(cur@) == split_commas(s@.subrange(0, i as int)),
        decreases n - i,
    {
        let ghost before = s@.subrange(0, i as int);
        let ghost after = s@.subrange(0, i + 1);
        assert(after.drop_last() =~= before);
        let c = s.get_char(i);
        if c == ',' {
            pieces.push(cur);
            cur = String::new();
            assert(string_views(pieces@).push(cur@) =~= split_commas(after));
        } else {
            let ghost old_cur = cur@;
            let one = s.substring_char(i, i + 1);
            assert(one@ =~= seq![c]);
            assert(after.last() == c);
            cur.append(one);
            assert(cur@ =~= old_cur.push(c));
            assert(string_views(pieces@).push(cur@) =~= split_commas(after));
        }
        i = i + 1;
    }
    assert(s@.subrange(0, n as int) =~= s@);
    let ghost last = cur@;
    let ghost init = string_views(pieces@);
    pieces.push(cur);
    assert(string_views(pieces@) =~= init.push(last));
    pieces
}

/// The outcome of compiling user text: the targets in input order, and the
/// trimmed pieces dropped for holding a character outside the alphabet.
pub struct CompiledTargets {
    pub targets: Vec<SearchTarget>,
    pub rejected: Vec<String>,
}

/// Splits `raw` on commas, trims each piece, drops empty pieces, and validates
/// and normalizes the rest for the address kind and match mode.
pub fn compile_targets(raw: &str, a: AddressKind, m: MatchMode) -> (r: CompiledTargets)
    ensures
        target_views(r.targets@) == compile_text(raw@, a, m),
        string_views(r.rejected@) == rejected_text(raw@, a),
{
    let pieces = split_commas_text(raw);
    let ghost pv = string_views(pieces@);
    let mut targets: Vec<SearchTarget> = Vec::new();
    let mut rejected: Vec<String> = Vec::new();
    let mut i: usize = 0;
    proof {
        assert(pv.subrange(0, 0) =~= Seq::<Seq<char>>::empty());
        assert(target_views(targets@) =~= Seq::<TargetSpec>::empty());
        assert(string_views(rejected@) =~= Seq::<Seq<char>>::empty());
    }
    while i < pieces.len()
        invariant
            i <= pieces.len(),
            pv == string_views(pieces@),
            pv == split_commas(raw@),
            target_views(targets@) == compile_pieces(pv.subrange(0, i as int), a, m),
            string_views(rejected@) == rejected_pieces(pv.subrange(0, i as int), a),
        decreases pieces.len() - i,
    {
        let ghost done = pv.subrange(0, i + 1);
        assert(done.drop_last() =~= pv.subrange(0, i as int));
        assert(done.last() == pieces@[i as int]@);
        let ghost tv = target_views(targets@);
        let ghost rv = string_views(rejected@);
        let seg = trim_text(pieces[i].as_str());
        if seg.unicode_len() > 0 {
            match validate(seg, a) {
                Some(v) => {
                    let t = make_target(v, a, m);
                    targets.push(t);
                    assert(target_views(targets@) =~= tv.push(t@));
                },
                None => {
                    rejected.push(String::from_str(seg));
                    assert(string_views(rejected@) =~= rv.push(seg@));
                },
            }
        }
        i = i + 1;
    }
    assert(pv.subrange(0, pieces.len() as int) =~= pv);
    CompiledTargets { targets, rejected }
}

/// The least expected number of trials over the targets, the one that bounds
/// the expected wait of a run; 1 for no target.
pub fn min_expected_trials(targets: &Vec<SearchTarget>, a: AddressKind) -> (r: u64)
    ensures
        r as nat == min_expected(target_views(targets@), a),
{
    let ghost tv = target_views(targets@);
    if targets.len() == 0 {
        return 1;
    }
    let mut best = exp(targets[0].raw.as_str().unicode_len(), a);
    let mut i: usize = 1;
    proof {
        assert(tv.subrange(0, 1).drop_last() =~= Seq::<TargetSpec>::empty());
    }
    while i < targets.len()
        invariant
            1 <= i <= targets.len(),
            tv == target_views(targets@),
            best as nat == min_expected(tv.subrange(0, i as int), a),
        decreases targets.len() - i,
    {
        let ghost done = tv.subrange(0, i + 1);
        assert(done.drop_last() =~= tv.subrange(0, i as int));
        let e = exp(targets[i].raw.as_str().unicode_len(), a);
        if e < best {
            best = e;
        }
        i = i + 1;
    }
    assert(tv.subrange(0, targets.len() as int) =~= tv);
    best
}

pub proof fn lemma_compile_concat(x: Seq<Seq<char>>, y: Seq<Seq<char>>, a: AddressKind, m: MatchMode)
    ensures
        compile_pieces(x + y, a, m) == compile_pieces(x, a, m) + compile_pieces(y, a, m),
    decreases y.len(),
{
    if y.len() == 0 {
        assert(x + y =~= x);
        assert(compile_pieces(x, a, m) + compile_pieces(y, a, m) =~= compile_pieces(x, a, m));
    } else {
        lemma_compile_concat(x, y.drop_last(), a, m);
        assert((x + y).drop_last() =~= x + y.drop_last());
        assert((x + y).last() == y.last());
        let head = compile_pieces(x, a, m);
        let mid = compile_pieces(y.drop_last(), a, m);
        if piece_accepted(y.last(), a) {
            let t = target_of(validated(trimmed(y.last()), a)->0, a, m);
            assert((head + mid).push(t) =~= head + mid.push(t));
        }
    }
}

/// A piece holding a character outside the alphabet is dropped on its own:
/// the pieces around it compile to the same targets as without it.
pub proof fn lemma_rejected_piece_isolated(
    before: Seq<Seq<char>>,
    bad: Seq<char>,
    after: Seq<Seq<char>>,
    a: AddressKind,
    m: MatchMode,
)
    requires
        piece_rejected(bad, a),
    ensures
        compile_pieces(before.push(bad) + after, a, m) == compile_pieces(before + after, a, m),
{
    lemma_compile_concat(before.push(bad), after, a, m);
    lemma_compile_concat(before, after, a, m);
    assert(before.push(bad).drop_last() =~= before);
}

pub proof fn lemma_compiled_shape(pieces: Seq<Seq<char>>, a: AddressKind, m: MatchMode)
    ensures
        forall|i: int|
            0 <= i < compile_pieces(pieces, a, m).len() ==> {
                let t = #[trigger] compile_pieces(pieces, a, m)[i];
                &&& t.full == full_pattern(t.raw, a, m)
                &&& is_valid_pattern(t.raw, a)
                &&& exists|j: int|
                    0 <= j < pieces.len() && trimmed(pieces[j]).len() > 0 && t.raw == normalize(
                        trimmed(#[trigger] pieces[j]),
                        a,
                    )
            },
    decreases pieces.len(),
{
    if pieces.len() > 0 {
        let init = pieces.drop_last();
        lemma_compiled_shape(init, a, m);
        let c = compile_pieces(pieces, a, m);
        let ci = compile_pieces(init, a, m);
        assert forall|i: int| 0 <= i < c.len() implies {
            let t = #[trigger] c[i];
            &&& t.full == full_pattern(t.raw, a, m)
            &&& is_valid_pattern(t.raw, a)
            &&& exists|j: int|
                0 <= j < pieces.len() && trimmed(pieces[j]).len() > 0 && t.raw == normalize(
                    trimmed(#[trigger] pieces[j]),
                    a,
                )
        } by {
            if i < ci.len() {
                assert(c[i] == ci[i]);
                let j = choose|j: int|
                    0 <= j < init.len() && trimmed(init[j]).len() > 0 && ci[i].raw == normalize(
                        trimmed(#[trigger] init[j]),
                        a,
                    );
                assert(pieces[j] == init[j]);
            } else {
                assert(pieces[pieces.len() - 1] == pieces.last());
            }
        }
    }
}

/// Under prefix mode every compiled target's full pattern is the address
/// prefix followed by the normalized pattern; under the other modes it is the
/// normalized pattern itself.
pub proof fn lemma_full_pattern_follows_mode(raw: Seq<char>, a: AddressKind, m: MatchMode)
    ensures
        forall|i: int|
            0 <= i < compile_text(raw, a, m).len() ==> {
                let t = #[trigger] compile_text(raw, a, m)[i];
                &&& m == MatchMode::Prefix ==> t.full == address_prefix(a) + t.raw
                &&& m == MatchMode::Prefix ==> t.full.subrange(0, address_prefix(a).len() as int)
                    == address_prefix(a)
                &&& m != MatchMode::Prefix ==> t.full == t.raw
            },
{
    lemma_compiled_shape(split_commas(raw), a, m);
    assert forall|i: int| 0 <= i < compile_text(raw, a, m).len() implies {
        let t = #[trigger] compile_text(raw, a, m)[i];
        &&& m == MatchMode::Prefix ==> t.full == address_prefix(a) + t.raw
        &&& m == MatchMode::Prefix ==> t.full.subrange(0, address_prefix(a).len() as int)
            == address_prefix(a)
        &&& m != MatchMode::Prefix ==> t.full == t.raw
    } by {
        let t = compile_text(raw, a, m)[i];
        if m == MatchMode::Prefix {
            assert(t.full.subrange(0, address_prefix(a).len() as int) =~= address_prefix(a));
        }
    }
}

/// Every compiled pattern is written in the alphabet of the address kind. A
/// bech32 pattern is the lowercase form of a trimmed input piece, and holds no
/// uppercase letter; a base58 pattern is a trimmed input piece, case kept.
pub proof fn lemma_patterns_normalized(raw: Seq<char>, a: AddressKind, m: MatchMode)
    ensures
        forall|i: int|
            0 <= i < compile_text(raw, a, m).len() ==> {
                let t = #[trigger] compile_text(raw, a, m)[i];
                &&& is_valid_pattern(t.raw, a)
                &&& uses_bech32(a) ==> forall|k: int|
                    0 <= k < t.raw.len() ==> !('A' <= #[trigger] t.raw[k] <= 'Z')
                &&& uses_bech32(a) ==> exists|j: int|
                    0 <= j < split_commas(raw).len() && t.raw == lowercased(
                        trimmed(#[trigger] split_commas(raw)[j]),
                    )
                &&& !uses_bech32(a) ==> exists|j: int|
                    0 <= j < split_commas(raw).len() && t.raw == trimmed(
                        #[trigger] split_commas(raw)[j],
                    )
            },
{
    lemma_compiled_shape(split_commas(raw), a, m);
    assert forall|i: int| 0 <= i < compile_text(raw, a, m).len() implies {
        let t = #[trigger] compile_text(raw, a, m)[i];
        &&& is_valid_pattern(t.raw, a)
        &&& uses_bech32(a) ==> forall|k: int|
            0 <= k < t.raw.len() ==> !('A' <= #[trigger] t.raw[k] <= 'Z')
        &&& uses_bech32(a) ==> exists|j: int|
            0 <= j < split_commas(raw).len() && t.raw == lowercased(
                trimmed(#[trigger] split_commas(raw)[j]),
            )
        &&& !uses_bech32(a) ==> exists|j: int|
            0 <= j < split_commas(raw).len() && t.raw == trimmed(
                #[trigger] split_commas(raw)[j],
            )
    } by {
        let t = compile_text(raw, a, m)[i];
        if uses_bech32(a) {
            assert forall|k: int| 0 <= k < t.raw.len() implies !('A' <= #[trigger] t.raw[k] <= 'Z') by {
                assert(alphabet(a).contains(t.raw[k]));
                let w = choose|w: int| 0 <= w < alphabet(a).len() && alphabet(a)[w] == t.raw[k];
                assert(bech32_alphabet().len() == 32);
            }
        }
    }
}

/// Compiling the same text twice with the same settings gives the same targets.
pub proof fn lemma_compile_repeatable(
    raw: Seq<char>,
    a: AddressKind,
    m: MatchMode,
    first: Seq<TargetSpec>,
    second: Seq<TargetSpec>,
)
    requires
        first == compile_text(raw, a, m),
        second == compile_text(raw, a, m),
    ensures
        first == second,
{
}

/// Segments written one after another with a comma between each two.
pub open spec fn join_commas(segs: Seq<Seq<char>>) -> Seq<char>
    decreases segs.len(),
{
    if segs.len() == 0 {
        seq![]
    } else if segs.len() == 1 {
        segs[0]
    } else {
        join_commas(segs.drop_last()) + seq![','] + segs.last()
    }
}

pub open spec fn comma_free(s: Seq<char>) -> bool {
    forall|i: int| 0 <= i < s.len() ==> s[i] != ','
}

pub proof fn lemma_split_nonempty(s: Seq<char>)
    ensures
        split_commas(s).len() >= 1,
    decreases s.len(),
{
    if s.len() > 0 {
        lemma_split_nonempty(s.drop_last());
    }
}

pub proof fn lemma_split_append(x: Seq<char>, b: Seq<char>)
    requires
        comma_free(b),
    ensures
        split_commas(x + b) == split_commas(x).update(
            split_commas(x).len() - 1,
            split_commas(x).last() + b,
        ),
    decreases b.len(),
{
    lemma_split_nonempty(x);
    let sx = split_commas(x);
    if b.len() == 0 {
        assert(x + b =~= x);
        assert(sx.last() + b =~= sx.last());
        assert(sx.update(sx.len() - 1, sx.last() + b) =~= sx);
    } else {
        let bi = b.drop_last();
        lemma_split_append(x, bi);
        assert((x + b).drop_last() =~= x + bi);
        assert((x + b).last() == b.last());
        assert(b.last() == b[b.len() - 1]);
        let init = split_commas(x + bi);
        assert(init.last() == sx.last() + bi);
        assert((sx.last() + bi).push(b.last()) =~= sx.last() + b);
        assert(split_commas(x + b) =~= sx.update(sx.len() - 1, sx.last() + b));
    }
}

/// Comma-free segments joined by commas split back into the same segments.
pub proof fn lemma_split_join(segs: Seq<Seq<char>>)
    requires
        segs.len() >= 1,
        forall|i: int| 0 <= i < segs.len() ==> comma_free(#[trigger] segs[i]),
    ensures
        split_commas(join_commas(segs)) == segs,
    decreases segs.len(),
{
    let e = Seq::<char>::empty();
    if segs.len() == 1 {
        lemma_split_append(e, segs[0]);
        assert(e + segs[0] =~= segs[0]);
        assert(split_commas(e) =~= seq![e]);
        assert(e + segs[0] =~= segs[0]);
        assert(seq![e].update(0, e + segs[0]) =~= segs);
    } else {
        let init = segs.drop_last();
        assert forall|i: int| 0 <= i < init.len() implies comma_free(#[trigger] init[i]) by {
            assert(init[i] == segs[i]);
        }
        lemma_split_join(init);
        let j = join_commas(init);
        let jc = j + seq![','];
        assert(jc.drop_last() =~= j);
        assert(split_commas(jc) == init.push(e));
        assert(comma_free(segs[segs.len() - 1]));
        lemma_split_append(jc, segs.last());
        assert(jc + segs.last() =~= join_commas(segs));
        assert(e + segs.last() =~= segs.last());
        assert(init.push(e).update(init.len() as int, e + segs.last()) =~= segs);
    }
}

/// In text made of comma-free segments joined by commas, a segment holding a
/// character outside the alphabet is dropped alone: the text compiles to the
/// same targets as the text without that segment.
pub proof fn lemma_rejected_segment_isolated(
    before: Seq<Seq<char>>,
    bad: Seq<char>,
    after: Seq<Seq<char>>,
    a: AddressKind,
    m: MatchMode,
)
    requires
        before.len() + after.len() >= 1,
        forall|i: int| 0 <= i < before.len() ==> comma_free(#[trigger] before[i]),
        forall|i: int| 0 <= i < after.len() ==> comma_free(#[trigger] after[i]),
        comma_free(bad),
        piece_rejected(bad, a),
    ensures
        compile_text(join_commas(before.push(bad) + after), a, m) == compile_text(
            join_commas(before + after),
            a,
            m,
        ),
{
    let with = before.push(bad) + after;
    let without = before + after;
    assert forall|i: int| 0 <= i < with.len() implies comma_free(#[trigger] with[i]) by {
        if i < before.len() {
            assert(with[i] == before[i]);
        } else if i == before.len() {
            assert(with[i] == bad);
        } else {
            assert(with[i] == after[i - before.len() - 1]);
        }
    }
    assert forall|i: int| 0 <= i < without.len() implies comma_free(#[trigger] without[i]) by {
        if i < before.len() {
            assert(without[i] == before[i]);
        } else {
            assert(without[i] == after[i - before.len()]);
        }
    }
    lemma_split_join(with);
    lemma_split_join(without);
    lemma_rejected_piece_isolated(before, bad, after, a, m);
}

} // verus!

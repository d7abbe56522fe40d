//! Environment-override parsing.
//!
//! A host may pass extra environment variables for one command as a single
//! string `"KEY=value;KEY=value"`. The string is split on every `;`, and
//! each piece on its first `=`; a piece without `=` is silently dropped.
//! Nothing is escaped and keys need not be unique: the result is the ordered
//! sequence of pairs exactly as written, and a value containing `;` is
//! therefore cut apart. The pairs are applied to the child's environment in
//! this order, so on a repeated key the later entry wins.

use vstd::prelude::*;
use vstd::string::StrSliceExecFns;

verus! {

/// Index of the first occurrence of `c` in `s`, or `s.len()` when `c` does
/// not occur.
pub open spec fn first_idx(s: Seq<char>, c: char) -> int
    decreases s.len(),
{
    if s.len() == 0 {
        0
    } else if s[0] == c {
        0
    } else {
        1 + first_idx(s.skip(1), c)
    }
}

pub proof fn lemma_first_idx(s: Seq<char>, c: char)
    ensures
        0 <= first_idx(s, c) <= s.len(),
        first_idx(s, c) < s.len() ==> s[first_idx(s, c)] == c,
        forall|k: int| 0 <= k < first_idx(s, c) ==> s[k] != c,
    decreases s.len(),
{
    if s.len() == 0 || s[0] == c {
    } else {
        lemma_first_idx(s.skip(1), c);
        assert forall|k: int| 0 <= k < first_idx(s, c) implies s[k] != c by {
            if k >= 1 {
                assert(s.skip(1)[k - 1] == s[k]);
            }
        }
        if first_idx(s, c) < s.len() {
            assert(s.skip(1)[first_idx(s, c) - 1] == s[first_idx(s, c)]);
        }
    }
}

/// The pieces of `s` between occurrences of `c`: splitting keeps empty
/// pieces, so `n` separators always yield `n + 1` pieces.
pub open spec fn split_on(s: Seq<char>, c: char) -> Seq<Seq<char>>
    decreases s.len(),
{
    let i = first_idx(s, c);
    if i < 0 || i >= s.len() {
        seq![s]
    } else {
        seq![s.take(i)] + split_on(s.skip(i + 1), c)
    }
}

/// One piece read as an override: the text before the first `=` is the key,
/// everything after it the value. A piece without `=` is no override.
pub open spec fn pair_of(seg: Seq<char>) -> Option<(Seq<char>, Seq<char>)> {
    let j = first_idx(seg, '=');
    if 0 <= j < seg.len() {
        Some((seg.take(j), seg.skip(j + 1)))
    } else {
        None
    }
}

/// The overrides contributed by a sequence of pieces, in order, with the
/// pieces that hold no `=` dropped.
pub open spec fn pairs_of_segments(segs: Seq<Seq<char>>) -> Seq<(Seq<char>, Seq<char>)>
    decreases segs.len(),
{
    if segs.len() == 0 {
        Seq::empty()
    } else {
        let rest = pairs_of_segments(segs.skip(1));
        match pair_of(segs[0]) {
            Some(p) => seq![p] + rest,
            None => rest,
        }
    }
}

/// The ordered environment overrides written in `s`.
pub open spec fn env_pairs(s: Seq<char>) -> Seq<(Seq<char>, Seq<char>)> {
    pairs_of_segments(split_on(s, ';'))
}

/// A lone piece contributes its override, or nothing.
proof fn lemma_pairs_of_singleton(seg: Seq<char>)
    ensures
        pair_of(seg) is Some ==> pairs_of_segments(seq![seg]) == seq![pair_of(seg)->Some_0],
        pair_of(seg) is None ==> pairs_of_segments(seq![seg]) == Seq::<(Seq<char>, Seq<char>)>::empty(),
{
    let segs = seq![seg];
    assert(segs.skip(1) =~= Seq::<Seq<char>>::empty());
    assert(pairs_of_segments(Seq::<Seq<char>>::empty()) == Seq::<(Seq<char>, Seq<char>)>::empty());
    assert(segs[0] == seg);
    match pair_of(seg) {
        Some(p) => {
            assert(pairs_of_segments(segs) =~= seq![p]);
        },
        None => {
        },
    }
}

/// The overrides of `s` are the overrides of its piece before the first `;`
/// followed by the overrides of the rest; with no `;` left, `s` is itself
/// the last piece.
proof fn lemma_env_pairs_step(s: Seq<char>)
    ensures
        first_idx(s, ';') < s.len() ==> env_pairs(s) == pairs_of_segments(
            seq![s.take(first_idx(s, ';'))],
        ) + env_pairs(s.skip(first_idx(s, ';') + 1)),
        first_idx(s, ';') >= s.len() ==> env_pairs(s) == pairs_of_segments(seq![s]),
{
    lemma_first_idx(s, ';');
    let i = first_idx(s, ';');
    if i < s.len() {
        let head = s.take(i);
        lemma_pairs_of_singleton(head);
        let segs = seq![head] + split_on(s.skip(i + 1), ';');
        assert(split_on(s, ';') == segs);
        assert(segs.skip(1) =~= split_on(s.skip(i + 1), ';'));
        match pair_of(head) {
            Some(p) => {
                assert(pairs_of_segments(segs) =~= seq![p] + pairs_of_segments(segs.skip(1)));
            },
            None => {
                assert(pairs_of_segments(segs) == pairs_of_segments(segs.skip(1)));
                assert(pairs_of_segments(seq![head]) + pairs_of_segments(segs.skip(1))
                    =~= pairs_of_segments(segs.skip(1)));
            },
        }
    }
}

/// Finds the first occurrence of `c` in `s`, or reports `s`'s length.
fn find_char(s: &str, c: char) -> (i: usize)
    ensures
        i as int == first_idx(s@, c),
{
    proof {
        lemma_first_idx(s@, c);
    }
    let n = s.unicode_len();
    let mut i: usize = 0;
    while i < n && s.get_char(i) != c
        invariant
            0 <= i <= n,
            n == s@.len(),
            forall|k: int| 0 <= k < i ==> s@[k] != c,
        decreases n - i,
    {
        i += 1;
    }
    proof {
        lemma_first_idx(s@, c);
        if first_idx(s@, c) < i {
            assert(s@[first_idx(s@, c)] == c);
            assert(false);
        }
        if first_idx(s@, c) > i {
            assert(s@[i as int] != c);
            assert(false);
        }
    }
    i
}

/// Reads one piece; pushes its override onto `acc` if it holds an `=`.
fn push_segment(seg: &str, acc: &mut Vec<(String, String)>)
    ensures
        final(acc).deep_view() == old(acc).deep_view() + pairs_of_segments(seq![seg@]),
{
    proof {
        lemma_first_idx(seg@, '=');
        lemma_pairs_of_singleton(seg@);
    }
    let n = seg.unicode_len();
    let j = find_char(seg, '=');
    if j < n {
        let key = seg.substring_char(0, j).to_owned();
        let value = seg.substring_char(j + 1, n).to_owned();
        let ghost p = pair_of(seg@)->Some_0;
        assert(key@ == p.0);
        assert(value@ == p.1);
        acc.push((key, value));
        proof {
            assert(pairs_of_segments(seq![seg@]) =~= seq![p]);
            assert(acc.deep_view() =~= old(acc).deep_view() + pairs_of_segments(seq![seg@]));
        }
    } else {
        proof {
            assert(pairs_of_segments(seq![seg@]) =~= Seq::<(Seq<char>, Seq<char>)>::empty());
            assert(acc.deep_view() =~= old(acc).deep_view() + pairs_of_segments(seq![seg@]));
        }
    }
}

/// Parses an override string into its ordered `(key, value)` pairs.
pub fn parse_env_overrides(s: &str) -> (r: Vec<(String, String)>)
    ensures
        r.deep_view() == env_pairs(s@),
{
    let mut r: Vec<(String, String)> = Vec::new();
    let mut rest: &str = s;
    loop
        invariant
            env_pairs(s@) == r.deep_view() + env_pairs(rest@),
        decreases rest@.len(),
    {
        let n = rest.unicode_len();
        let i = find_char(rest, ';');
        proof {
            lemma_first_idx(rest@, ';');
            lemma_env_pairs_step(rest@);
        }
        if i < n {
            let seg = rest.substring_char(0, i);
            assert(seg@ == rest@.take(i as int));
            push_segment(seg, &mut r);
            let tail = rest.substring_char(i + 1, n);
            assert(tail@ == rest@.skip(i + 1));
            proof {
                assert(env_pairs(s@) =~= r.deep_view() + env_pairs(tail@));
            }
            rest = tail;
        } else {
            push_segment(rest, &mut r);
            proof {
                assert(env_pairs(rest@) == pairs_of_segments(seq![rest@]));
                assert(r.deep_view() =~= env_pairs(s@));
            }
            return r;
        }
    }
}

/// The environment table after applying `pairs` to `base` in order, each
/// pair setting its key, as the overrides are applied on top of a child's
/// inherited environment.
pub open spec fn apply_overrides(
    base: Map<Seq<char>, Seq<char>>,
    pairs: Seq<(Seq<char>, Seq<char>)>,
) -> Map<Seq<char>, Seq<char>>
    decreases pairs.len(),
{
    if pairs.len() == 0 {
        base
    } else {
        apply_overrides(base.insert(pairs[0].0, pairs[0].1), pairs.skip(1))
    }
}

/// Index of the last pair of `pairs` whose key is `k`, or -1 when no pair
/// writes `k`.
pub open spec fn last_write(pairs: Seq<(Seq<char>, Seq<char>)>, k: Seq<char>) -> int
    decreases pairs.len(),
{
    if pairs.len() == 0 {
        -1
    } else {
        let rest = last_write(pairs.skip(1), k);
        if rest >= 0 {
            1 + rest
        } else if pairs[0].0 == k {
            0
        } else {
            -1
        }
    }
}

pub proof fn lemma_last_write(pairs: Seq<(Seq<char>, Seq<char>)>, k: Seq<char>)
    ensures
        -1 <= last_write(pairs, k) < pairs.len(),
        last_write(pairs, k) >= 0 ==> pairs[last_write(pairs, k)].0 == k,
        forall|i: int| last_write(pairs, k) < i < pairs.len() ==> pairs[i].0 != k,
    decreases pairs.len(),
{
    if pairs.len() > 0 {
        lemma_last_write(pairs.skip(1), k);
        let lw = last_write(pairs, k);
        if last_write(pairs.skip(1), k) >= 0 {
            assert(pairs[lw] == pairs.skip(1)[lw - 1]);
        }
        assert forall|i: int| lw < i < pairs.len() implies pairs[i].0 != k by {
            if i >= 1 {
                assert(pairs[i] == pairs.skip(1)[i - 1]);
            }
        }
    }
}

/// Keys need not be unique, and the later entry wins: after applying the
/// overrides in order, a key some pair writes holds the value of the last
/// pair that writes it, and a key no pair writes is exactly as the inherited
/// environment had it.
pub proof fn lemma_later_override_wins(
    base: Map<Seq<char>, Seq<char>>,
    pairs: Seq<(Seq<char>, Seq<char>)>,
    k: Seq<char>,
)
    ensures
        apply_overrides(base, pairs).contains_key(k) <==> base.contains_key(k) || last_write(
            pairs,
            k,
        ) >= 0,
        last_write(pairs, k) >= 0 ==> apply_overrides(base, pairs)[k] == pairs[last_write(
            pairs,
            k,
        )].1,
        last_write(pairs, k) < 0 && base.contains_key(k) ==> apply_overrides(base, pairs)[k]
            == base[k],
    decreases pairs.len(),
{
    lemma_last_write(pairs, k);
    if pairs.len() > 0 {
        let base1 = base.insert(pairs[0].0, pairs[0].1);
        let rest = pairs.skip(1);
        lemma_later_override_wins(base1, rest, k);
        lemma_last_write(rest, k);
        if last_write(rest, k) >= 0 {
            assert(pairs[last_write(pairs, k)] == rest[last_write(rest, k)]);
        }
    }
}

/// Every parsed override is shaped by the two separators: its key holds no
/// `=` and no `;`, and its value holds no `;`.
pub proof fn lemma_env_pairs_wellformed(s: Seq<char>)
    ensures
        forall|i: int|
            0 <= i < env_pairs(s).len() ==> !env_pairs(s)[i].0.contains('=') && !env_pairs(
                s,
            )[i].0.contains(';') && !env_pairs(s)[i].1.contains(';'),
    decreases s.len(),
{
    lemma_first_idx(s, ';');
    lemma_env_pairs_step(s);
    let i = first_idx(s, ';');
    if i < s.len() {
        let head = s.take(i);
        lemma_env_pairs_wellformed(s.skip(i + 1));
        lemma_segment_pair_wellformed(head);
        assert forall|k: int|
            0 <= k < env_pairs(s).len() implies !env_pairs(s)[k].0.contains('=') && !env_pairs(
            s,
        )[k].0.contains(';') && !env_pairs(s)[k].1.contains(';') by {
            let hp = pairs_of_segments(seq![head]);
            if k >= hp.len() {
                assert(env_pairs(s)[k] == env_pairs(s.skip(i + 1))[k - hp.len()]);
            } else {
                assert(env_pairs(s)[k] == hp[k]);
            }
        }
    } else {
        lemma_segment_pair_wellformed(s);
    }
}

/// The override of a single piece that holds no `;` before its first `=`
/// has a separator-free key, and a value free of `;` when the piece is.
proof fn lemma_segment_pair_wellformed(seg: Seq<char>)
    requires
        forall|k: int| 0 <= k < seg.len() ==> seg[k] != ';',
    ensures
        forall|i: int|
            0 <= i < pairs_of_segments(seq![seg]).len() ==> !pairs_of_segments(
                seq![seg],
            )[i].0.contains('=') && !pairs_of_segments(seq![seg])[i].0.contains(';')
                && !pairs_of_segments(seq![seg])[i].1.contains(';'),
{
    lemma_first_idx(seg, '=');
    lemma_pairs_of_singleton(seg);
    let j = first_idx(seg, '=');
    if 0 <= j < seg.len() {
        let p = pair_of(seg)->Some_0;
        assert(!p.0.contains('=')) by {
            if p.0.contains('=') {
                let k = choose|k: int| 0 <= k < p.0.len() && p.0[k] == '=';
                assert(seg[k] == '=');
            }
        }
        assert(!p.0.contains(';')) by {
            if p.0.contains(';') {
                let k = choose|k: int| 0 <= k < p.0.len() && p.0[k] == ';';
                assert(seg[k] == ';');
            }
        }
        assert(!p.1.contains(';')) by {
            if p.1.contains(';') {
                let k = choose|k: int| 0 <= k < p.1.len() && p.1[k] == ';';
                assert(seg[j + 1 + k] == ';');
            }
        }
    }
}

} // verus!

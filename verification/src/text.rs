//! Whitespace classification and trimming.
//!
//! Captured process output is reported with leading and trailing whitespace
//! removed. Whitespace here means the Unicode `White_Space` code points, the
//! same set the platform's string trimming removes.

use vstd::prelude::*;
use vstd::string::StrSliceExecFns;
use vstd::string::StringExecFns;

verus! {

/// A code point with the Unicode `White_Space` property.
pub open spec fn is_white(c: char) -> bool {
    c as u32 == 0x20 || (0x09 <= c as u32 && c as u32 <= 0x0d) || c as u32 == 0x85
        || c as u32 == 0xa0 || c as u32 == 0x1680 || (0x2000 <= c as u32 && c as u32 <= 0x200a)
        || c as u32 == 0x2028 || c as u32 == 0x2029 || c as u32 == 0x202f || c as u32 == 0x205f
        || c as u32 == 0x3000
}

/// Decides `is_white` for one character.
pub fn is_white_char(c: char) -> (r: bool)
    ensures
        r == is_white(c),
{
    let u = c as u32;
    u == 0x20 || (0x09 <= u && u <= 0x0d) || u == 0x85 || u == 0xa0 || u == 0x1680
        || (0x2000 <= u && u <= 0x200a) || u == 0x2028 || u == 0x2029 || u == 0x202f
        || u == 0x205f || u == 0x3000
}

/// Number of leading whitespace characters of `s`.
pub open spec fn lead_ws(s: Seq<char>) -> int
    decreases s.len(),
{
    if s.len() == 0 {
        0
    } else if !is_white(s[0]) {
        0
    } else {
        1 + lead_ws(s.skip(1))
    }
}

/// Index just past the last non-whitespace character of `s` (0 when all of
/// `s` is whitespace).
pub open spec fn trail_end(s: Seq<char>) -> int
    decreases s.len(),
{
    if s.len() == 0 {
        0
    } else if !is_white(s[s.len() - 1]) {
        s.len() as int
    } else {
        trail_end(s.drop_last())
    }
}

/// `s` with leading and trailing whitespace removed.
pub open spec fn trim_spec(s: Seq<char>) -> Seq<char> {
    if lead_ws(s) <= trail_end(s) {
        s.subrange(lead_ws(s), trail_end(s))
    } else {
        Seq::empty()
    }
}

pub proof fn lemma_lead_ws(s: Seq<char>)
    ensures
        0 <= lead_ws(s) <= s.len(),
        forall|k: int| 0 <= k < lead_ws(s) ==> is_white(s[k]),
        lead_ws(s) < s.len() ==> !is_white(s[lead_ws(s)]),
    decreases s.len(),
{
    if s.len() == 0 || !is_white(s[0]) {
    } else {
        lemma_lead_ws(s.skip(1));
        assert forall|k: int| 0 <= k < lead_ws(s) implies is_white(s[k]) by {
            if k >= 1 {
                assert(s.skip(1)[k - 1] == s[k]);
            }
        }
        if lead_ws(s) < s.len() {
            assert(s.skip(1)[lead_ws(s) - 1] == s[lead_ws(s)]);
        }
    }
}

pub proof fn lemma_trail_end(s: Seq<char>)
    ensures
        0 <= trail_end(s) <= s.len(),
        forall|k: int| trail_end(s) <= k < s.len() ==> is_white(s[k]),
        trail_end(s) > 0 ==> !is_white(s[trail_end(s) - 1]),
    decreases s.len(),
{
    if s.len() == 0 || !is_white(s[s.len() - 1]) {
    } else {
        lemma_trail_end(s.drop_last());
        assert forall|k: int| trail_end(s) <= k < s.len() implies is_white(s[k]) by {
            if k < s.len() - 1 {
                assert(s.drop_last()[k] == s[k]);
            }
        }
        if trail_end(s) > 0 {
            assert(s.drop_last()[trail_end(s) - 1] == s[trail_end(s) - 1]);
        }
    }
}

/// Removes leading and trailing Unicode whitespace from `s`.
pub fn trim_str(s: &str) -> (r: String)
    ensures
        r@ == trim_spec(s@),
{
    proof {
        lemma_lead_ws(s@);
        lemma_trail_end(s@);
    }
    let n = s.unicode_len();
    let mut i: usize = 0;
    while i < n && is_white_char(s.get_char(i))
        invariant
            0 <= i <= n,
            n == s@.len(),
            forall|k: int| 0 <= k < i ==> is_white(s@[k]),
        decreases n - i,
    {
        i += 1;
    }
    proof {
        lemma_lead_ws(s@);
        if lead_ws(s@) < i {
            assert(is_white(s@[lead_ws(s@)]));
            assert(false);
        }
        if lead_ws(s@) > i {
            assert(is_white(s@[i as int]));
            assert(false);
        }
    }
    let mut j: usize = n;
    while j > i && is_white_char(s.get_char(j - 1))
        invariant
            i <= j <= n,
            n == s@.len(),
            forall|k: int| j <= k < n ==> is_white(s@[k]),
        decreases j,
    {
        j -= 1;
    }
    proof {
        lemma_lead_ws(s@);
        lemma_trail_end(s@);
        if i < n {
            assert(!is_white(s@[i as int]));
            assert(j > i);
            assert(!is_white(s@[j - 1]));
            if trail_end(s@) < j {
                assert(is_white(s@[j - 1]));
                assert(false);
            }
            if trail_end(s@) > j {
                assert(is_white(s@[trail_end(s@) - 1]));
                assert(false);
            }
            assert(s@.subrange(i as int, j as int) == trim_spec(s@));
        } else {
            assert(i == n && j == n);
            if n > 0 {
                assert(trail_end(s@) == 0) by {
                    if trail_end(s@) > 0 {
                        assert(is_white(s@[trail_end(s@) - 1]));
                    }
                }
                assert(lead_ws(s@) > trail_end(s@));
                assert(trim_spec(s@) =~= s@.subrange(n as int, n as int));
            } else {
                assert(trim_spec(s@) =~= s@.subrange(0, 0));
            }
        }
    }
    s.substring_char(i, j).to_owned()
}

/// Trimming is idempotent: a trimmed string trims to itself.
pub proof fn lemma_trim_idempotent(s: Seq<char>)
    ensures
        trim_spec(trim_spec(s)) == trim_spec(s),
{
    lemma_lead_ws(s);
    lemma_trail_end(s);
    let t = trim_spec(s);
    if t.len() == 0 {
        assert(lead_ws(t) == 0);
        assert(trail_end(t) == 0);
        assert(trim_spec(t) =~= t);
    } else {
        let lo = lead_ws(s);
        let hi = trail_end(s);
        assert(t == s.subrange(lo, hi));
        assert(t[0] == s[lo]);
        assert(!is_white(t[0]));
        assert(lead_ws(t) == 0);
        assert(t[t.len() - 1] == s[hi - 1]);
        assert(!is_white(t[t.len() - 1]));
        assert(trail_end(t) == t.len());
        assert(trim_spec(t) =~= t);
    }
}

/// The lines of `v` joined with a single `'\n'` between neighbours: no
/// leading, trailing or doubled separator is added.
pub open spec fn joined_lines(v: Seq<Seq<char>>) -> Seq<char>
    decreases v.len(),
{
    if v.len() == 0 {
        Seq::empty()
    } else if v.len() == 1 {
        v[0]
    } else {
        v[0] + seq!['\n'] + joined_lines(v.skip(1))
    }
}

/// Appending one line extends the joined text by a separator and that line.
proof fn lemma_joined_lines_push(v: Seq<Seq<char>>, x: Seq<char>)
    ensures
        v.len() == 0 ==> joined_lines(v.push(x)) == x,
        v.len() > 0 ==> joined_lines(v.push(x)) == joined_lines(v) + seq!['\n'] + x,
    decreases v.len(),
{
    if v.len() == 0 {
        assert(v.push(x) =~= seq![x]);
        assert(joined_lines(seq![x]) == x);
    } else {
        assert(v.push(x).skip(1) =~= v.skip(1).push(x));
        lemma_joined_lines_push(v.skip(1), x);
        assert(v.push(x)[0] == v[0]);
        if v.len() == 1 {
            assert(joined_lines(v.push(x)) == v[0] + seq!['\n'] + x);
            assert(joined_lines(v) == v[0]);
        } else {
            assert(joined_lines(v.push(x)) == v[0] + seq!['\n'] + (joined_lines(v.skip(1))
                + seq!['\n'] + x));
            assert(v[0] + seq!['\n'] + (joined_lines(v.skip(1)) + seq!['\n'] + x) =~= (v[0]
                + seq!['\n'] + joined_lines(v.skip(1))) + seq!['\n'] + x);
        }
    }
}

/// Joins directory-entry names with newlines, as a listing is reported.
pub fn join_lines(v: &Vec<String>) -> (r: String)
    ensures
        r@ == joined_lines(v.deep_view()),
{
    let ghost dv = v.deep_view();
    let mut r = String::new();
    let mut i: usize = 0;
    while i < v.len()
        invariant
            0 <= i <= v@.len(),
            dv == v.deep_view(),
            dv.len() == v@.len(),
            r@ == joined_lines(dv.take(i as int)),
        decreases v@.len() - i,
    {
        if i > 0 {
            r.append("\n");
        }
        r.append(v[i].as_str());
        proof {
            reveal_strlit("\n");
            assert("\n"@ =~= seq!['\n']);
            lemma_joined_lines_push(dv.take(i as int), dv[i as int]);
            assert(dv.take(i as int).push(dv[i as int]) =~= dv.take(i + 1));
            assert(dv[i as int] == v@[i as int]@);
        }
        i += 1;
    }
    proof {
        assert(dv.take(v@.len() as int) =~= dv);
    }
    r
}

/// A trimmed string carries no whitespace at either edge and is never longer
/// than what it was trimmed from.
pub proof fn lemma_trim_no_edge_white(s: Seq<char>)
    ensures
        trim_spec(s).len() > 0 ==> !is_white(trim_spec(s)[0]),
        trim_spec(s).len() > 0 ==> !is_white(trim_spec(s)[trim_spec(s).len() - 1]),
        trim_spec(s).len() <= s.len(),
{
    lemma_lead_ws(s);
    lemma_trail_end(s);
}

} // verus!

//! Path joining under the platform's rule.
//!
//! Joining follows the platform path semantics the bridge is built for: an
//! absolute second path replaces the first, and otherwise the two are
//! concatenated with a `/` separator unless the first already ends in one or
//! is empty. Making a path absolute, by contrast, consults the filesystem
//! and the working directory and is the host shim's call.

use vstd::prelude::*;
use vstd::string::StrSliceExecFns;
use vstd::string::StringExecFns;

verus! {

/// The joined form of paths `a` then `b`.
pub open spec fn join_spec(a: Seq<char>, b: Seq<char>) -> Seq<char> {
    if b.len() > 0 && b[0] == '/' {
        b
    } else if a.len() == 0 {
        b
    } else if a[a.len() - 1] == '/' {
        a + b
    } else {
        a + seq!['/'] + b
    }
}

/// Joins path `b` onto path `a`.
pub fn path_join(a: &str, b: &str) -> (r: String)
    ensures
        r@ == join_spec(a@, b@),
{
    let bn = b.unicode_len();
    if bn > 0 && b.get_char(0) == '/' {
        return b.to_owned();
    }
    let an = a.unicode_len();
    if an == 0 {
        return b.to_owned();
    }
    let mut r = a.to_owned();
    if a.get_char(an - 1) != '/' {
        r.append("/");
    }
    r.append(b);
    proof {
        reveal_strlit("/");
        assert("/"@ =~= seq!['/']);
        assert(r@ =~= join_spec(a@, b@));
    }
    r
}

/// Joining keeps an absolute second path, and never loses either path: both
/// arguments stand whole in the result.
pub proof fn lemma_join_keeps_both(a: Seq<char>, b: Seq<char>)
    ensures
        b.len() > 0 && b[0] == '/' ==> join_spec(a, b) == b,
        !(b.len() > 0 && b[0] == '/') ==> join_spec(a, b).subrange(
            join_spec(a, b).len() - b.len(),
            join_spec(a, b).len() as int,
        ) == b && join_spec(a, b).subrange(0, a.len() as int) == a,
{
    let r = join_spec(a, b);
    if b.len() > 0 && b[0] == '/' {
    } else if a.len() == 0 {
        assert(r.subrange(r.len() - b.len(), r.len() as int) =~= b);
        assert(r.subrange(0, 0) =~= a);
    } else if a[a.len() - 1] == '/' {
        assert(r.subrange(r.len() - b.len(), r.len() as int) =~= b);
        assert(r.subrange(0, a.len() as int) =~= a);
    } else {
        assert(r.subrange(r.len() - b.len(), r.len() as int) =~= b);
        assert(r.subrange(0, a.len() as int) =~= a);
    }
}

} // verus!

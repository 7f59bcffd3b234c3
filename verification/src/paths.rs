//! Paths given relative to a folder.

use vstd::prelude::*;
use crate::text::{ends_with, from_chars, push_str, starts_with, to_chars};

verus! {

/// `root.join(value)` for POSIX paths: an absolute value stands alone; otherwise
/// it is appended to the root, with a `/` between them unless the root is empty
/// or already ends with one.
pub open spec fn spec_resolve_relative(root: Seq<char>, value: Seq<char>) -> Seq<char> {
    if starts_with(value, "/"@) || root.len() == 0 {
        value
    } else if ends_with(root, "/"@) {
        root + value
    } else {
        root + "/"@ + value
    }
}

pub fn resolve_relative(root: &str, value: &str) -> (r: String)
    ensures
        r@ == spec_resolve_relative(root@, value@),
{
    let v = to_chars(value);
    let rc = to_chars(root);
    proof {
        reveal_strlit("/");
        assert("/"@ =~= seq!['/']);
        if v.len() > 0 {
            assert(v@.take(1) =~= seq![v@[0]]);
            assert(v@.take(1)[0] == v@[0]);
        }
        if rc.len() > 0 {
            assert(rc@.skip(rc.len() - 1) =~= seq![rc@[rc.len() - 1]]);
            assert(rc@.skip(rc.len() - 1)[0] == rc@[rc.len() - 1]);
        }
    }
    let absolute = v.len() > 0 && v[0] == '/';
    assert(absolute == starts_with(value@, "/"@));
    if absolute || rc.len() == 0 {
        return from_chars(&v);
    }
    let mut out = rc;
    let slash_end = out[out.len() - 1] == '/';
    assert(slash_end == ends_with(root@, "/"@));
    if !slash_end {
        push_str(&mut out, "/");
    }
    push_str(&mut out, value);
    from_chars(&out)
}

} // verus!

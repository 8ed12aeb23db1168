//! Path helpers shared by the backends and the exporter.

use vstd::prelude::*;
use vstd::string::*;

verus! {

/// Everything before the last separator of `p`, or `None` when `p` holds no
/// separator at all. The separator is kept when it is the whole remaining
/// prefix: the parent of an entry directly under `/` is `/` itself.
pub open spec fn dir_of(p: Seq<char>) -> Option<Seq<char>>
    decreases p.len(),
{
    if p.len() == 0 {
        None
    } else if p.last() == '/' {
        if p.len() == 1 {
            Some(p)
        } else {
            Some(p.drop_last())
        }
    } else {
        dir_of(p.drop_last())
    }
}

/// The directory a file at `p` would have to be created in: trailing
/// separators are ignored (they name the same entry, not a deeper one), and
/// what is left before the last remaining separator is the parent; a bare
/// name has none.
pub open spec fn parent_spec(p: Seq<char>) -> Option<Seq<char>>
    decreases p.len(),
{
    if p.len() > 0 && p.last() == '/' {
        parent_spec(p.drop_last())
    } else {
        dir_of(p)
    }
}

/// The directory part of a path: everything before its last separator, with
/// trailing separators ignored.
///
/// This is the decision behind creating a file's parent directories: when it
/// returns `None` there is no directory to create, and the path's own final
/// component is never part of the result.
pub fn parent_of(path: &str) -> (parent: Option<String>)
    ensures
        parent matches Some(d) ==> parent_spec(path@) == Some(d@),
        parent is None ==> parent_spec(path@) is None,
{
    let len: usize = path.unicode_len();
    let mut end: usize = len;
    proof {
        assert(path@.take(len as int) =~= path@);
    }
    while end > 0 && path.get_char(end - 1) == '/'
        invariant
            end <= len,
            len == path@.len(),
            parent_spec(path@) == parent_spec(path@.take(end as int)),
        decreases end,
    {
        proof {
            assert(path@.take(end as int).last() == path@[end - 1]);
            assert(path@.take(end as int).drop_last() =~= path@.take(end - 1));
        }
        end = end - 1;
    }
    proof {
        if end > 0 {
            assert(path@.take(end as int).last() == path@[end - 1]);
        }
        assert(parent_spec(path@.take(end as int)) == dir_of(path@.take(end as int)));
    }
    let mut i: usize = end;
    while i > 0
        invariant
            i <= end,
            end <= len,
            len == path@.len(),
            parent_spec(path@) == dir_of(path@.take(i as int)),
        decreases i,
    {
        if path.get_char(i - 1) == '/' {
            proof {
                assert(path@.take(i as int).last() == path@[i - 1]);
                assert(path@.take(i as int).drop_last() =~= path@.take(i - 1));
            }
            if i == 1 {
                return Some(path.substring_char(0, 1).to_owned());
            }
            return Some(path.substring_char(0, i - 1).to_owned());
        }
        proof {
            assert(path@.take(i as int).last() == path@[i - 1]);
            assert(path@.take(i as int).drop_last() =~= path@.take(i - 1));
        }
        i = i - 1;
    }
    proof {
        assert(path@.take(0).len() == 0);
    }
    None
}

} // verus!

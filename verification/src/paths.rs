//! Splitting file paths into a parent directory and a file name.  Paths are
//! plain strings with `/` as the separator.

use vstd::prelude::*;

verus! {

/// Position of the last `/` in `s`, if any.
pub open spec fn last_slash(s: Seq<char>) -> Option<int>
    decreases s.len(),
{
    if s.len() == 0 {
        None
    } else if s.last() == '/' {
        Some(s.len() - 1)
    } else {
        last_slash(s.drop_last())
    }
}

/// Everything before the last `/`; the whole string has no parent part when
/// it holds no `/`, so the parent is then empty.
pub open spec fn parent_of(s: Seq<char>) -> Seq<char> {
    match last_slash(s) {
        Some(i) => s.subrange(0, i),
        None => Seq::<char>::empty(),
    }
}

/// Everything after the last `/`, or the whole string when it holds none.
pub open spec fn name_of(s: Seq<char>) -> Seq<char> {
    match last_slash(s) {
        Some(i) => s.subrange(i + 1, s.len() as int),
        None => s,
    }
}

/// Splits `path` into its parent directory and file name.
pub fn split_path(path: &str) -> (r: (String, String))
    ensures
        r.0@ == parent_of(path@),
        r.1@ == name_of(path@),
{
    let n = path.unicode_len();
    let mut last: Option<usize> = None;
    let mut i: usize = 0;
    proof {
        assert(path@.subrange(0, 0) =~= Seq::<char>::empty());
    }
    while i < n
        invariant
            i <= n,
            n == path@.len(),
            match last {
                Some(j) => j < i && Some(j as int) == last_slash(path@.subrange(0, i as int)),
                None => last_slash(path@.subrange(0, i as int)) is None,
            },
        decreases n - i,
    {
        let c = path.get_char(i);
        proof {
            assert(path@.subrange(0, i as int + 1).drop_last() =~= path@.subrange(0, i as int));
            assert(path@.subrange(0, i as int + 1).last() == path@[i as int]);
        }
        if c == '/' {
            last = Some(i);
        }
        i = i + 1;
    }
    proof {
        assert(path@.subrange(0, n as int) =~= path@);
    }
    match last {
        Some(j) => {
            let parent = path.substring_char(0, j).to_owned();
            let name = path.substring_char(j + 1, n).to_owned();
            (parent, name)
        },
        None => {
            let parent = crate::strutil::new_empty_string();
            let name = path.to_owned();
            (parent, name)
        },
    }
}

} // verus!

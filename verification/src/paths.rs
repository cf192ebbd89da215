//! Paths as strings whose components are separated by `/`.
//!
//! The planner, the preview and the preflight checks only ever take paths apart and put
//! them together again; they do it with the functions here, which treat a path as text.
use vstd::prelude::*;

use crate::text::{chars_of, concat, copy_str, lemma_last_index_of, last_index_of, push_char, rfind_char, string_from_range};

verus! {

/// The parent of a path: everything before the last `/` (`/` itself for a top-level
/// entry, the empty path for a bare name); none for the empty path and for `/`.
pub open spec fn parent_of(p: Seq<char>) -> Option<Seq<char>> {
    match last_index_of(p, '/') {
        None => if p.len() == 0 {
            None
        } else {
            Some(Seq::<char>::empty())
        },
        Some(i) => if i == 0 {
            if p.len() == 1 {
                None
            } else {
                Some(seq!['/'])
            }
        } else {
            Some(p.subrange(0, i))
        },
    }
}

/// The last component of a path: the text after the last `/`; none when that text is
/// empty or `..`.
pub open spec fn file_name_of(p: Seq<char>) -> Option<Seq<char>> {
    let start = match last_index_of(p, '/') {
        None => 0,
        Some(i) => i + 1,
    };
    let name = p.subrange(start, p.len() as int);
    if name.len() == 0 || name == seq!['.', '.'] {
        None
    } else {
        Some(name)
    }
}

/// `name` appended to `base` with one `/` between them; an absolute `name` replaces
/// `base`, and an empty `base` gives `name`.
pub open spec fn joined(base: Seq<char>, name: Seq<char>) -> Seq<char> {
    if name.len() > 0 && name[0] == '/' {
        name
    } else if base.len() == 0 {
        name
    } else if base.last() == '/' {
        base + name
    } else {
        base + seq!['/'] + name
    }
}

/// `p` relative to `base`, when `p` is `base` or lies under it.
pub open spec fn stripped(p: Seq<char>, base: Seq<char>) -> Option<Seq<char>> {
    let n = base.len();
    if n == 0 {
        Some(p)
    } else if p == base {
        Some(Seq::<char>::empty())
    } else if p.len() > n && p.subrange(0, n as int) == base && base.last() == '/' {
        Some(p.subrange(n as int, p.len() as int))
    } else if p.len() > n && p.subrange(0, n as int) == base && p[n as int] == '/' {
        Some(p.subrange(n as int + 1, p.len() as int))
    } else {
        None
    }
}

/// Position of the first `/` in `p`, if any.
pub open spec fn first_slash(p: Seq<char>) -> Option<int>
    decreases p.len(),
{
    if p.len() == 0 {
        None
    } else if p[0] == '/' {
        Some(0)
    } else {
        match first_slash(p.subrange(1, p.len() as int)) {
            Some(i) => Some(i + 1),
            None => None,
        }
    }
}

/// The first component of a path: `/` for an absolute path, and otherwise the text up
/// to the first `/`; none for the empty path.
pub open spec fn first_component_of(p: Seq<char>) -> Option<Seq<char>> {
    if p.len() == 0 {
        None
    } else if p[0] == '/' {
        Some(seq!['/'])
    } else {
        match first_slash(p) {
            Some(i) => Some(p.subrange(0, i)),
            None => Some(p),
        }
    }
}

/// A parent is shorter than its path, so walking up from a path ends.
pub proof fn lemma_parent_shorter(p: Seq<char>)
    ensures
        parent_of(p) matches Some(q) ==> q.len() < p.len(),
{
    lemma_last_index_of(p, '/');
}

/// Parent of a path.
pub fn parent(p: &str) -> (r: Option<String>)
    ensures
        r.deep_view() == parent_of(p@),
{
    let cs = chars_of(p);
    match rfind_char(&cs, '/') {
        None => {
            if cs.len() == 0 {
                None
            } else {
                Some(String::new())
            }
        },
        Some(i) => {
            if i == 0 {
                if cs.len() == 1 {
                    None
                } else {
                    let mut s = String::new();
                    push_char(&mut s, '/');
                    assert(s@ =~= seq!['/']);
                    Some(s)
                }
            } else {
                proof {
                    lemma_last_index_of(p@, '/');
                }
                Some(string_from_range(&cs, 0, i))
            }
        },
    }
}

/// Last component of a path.
pub fn file_name(p: &str) -> (r: Option<String>)
    ensures
        r.deep_view() == file_name_of(p@),
{
    let cs = chars_of(p);
    proof {
        lemma_last_index_of(p@, '/');
    }
    let start = match rfind_char(&cs, '/') {
        None => 0,
        Some(i) => i + 1,
    };
    let name = string_from_range(&cs, start, cs.len());
    let n = cs.len() - start;
    if n == 0 {
        return None;
    }
    if n == 2 && cs[start] == '.' && cs[start + 1] == '.' {
        assert(name@ =~= seq!['.', '.']);
        return None;
    }
    assert(name@ != seq!['.', '.']) by {
        if name@ == seq!['.', '.'] {
            assert(name@[0] == cs@[start as int]);
            assert(name@[1] == cs@[start + 1]);
        }
    }
    Some(name)
}

/// Joins `name` onto `base`.
pub fn join(base: &str, name: &str) -> (r: String)
    ensures
        r@ == joined(base@, name@),
{
    let cb = chars_of(base);
    let cn = chars_of(name);
    if cn.len() > 0 && cn[0] == '/' {
        copy_str(name)
    } else if cb.len() == 0 {
        copy_str(name)
    } else if cb[cb.len() - 1] == '/' {
        concat(base, name)
    } else {
        let mut out = copy_str(base);
        push_char(&mut out, '/');
        out.append(name);
        out
    }
}

/// Whether `cs[from..from + t.len()]` is `t`.
fn matches_at(cs: &Vec<char>, t: &Vec<char>, from: usize) -> (r: bool)
    requires
        from + t.len() <= cs.len(),
    ensures
        r == (cs@.subrange(from as int, from + t.len()) == t@),
{
    let mut j: usize = 0;
    while j < t.len()
        invariant
            from + t.len() <= cs.len(),
            j <= t.len(),
            forall|k: int| 0 <= k < j ==> cs@[from + k] == t@[k],
        decreases t.len() - j,
    {
        if cs[from + j] != t[j] {
            assert(cs@.subrange(from as int, from + t.len())[j as int] != t@[j as int]);
            return false;
        }
        j = j + 1;
    }
    assert(cs@.subrange(from as int, from + t.len()) =~= t@);
    true
}

/// `p` relative to `base`.
pub fn strip_prefix(p: &str, base: &str) -> (r: Option<String>)
    ensures
        r.deep_view() == stripped(p@, base@),
{
    let cp = chars_of(p);
    let cb = chars_of(base);
    let n = cb.len();
    if n == 0 {
        return Some(copy_str(p));
    }
    if cp.len() < n {
        assert(p@ != base@);
        return None;
    }
    let head = matches_at(&cp, &cb, 0);
    if head && cp.len() == n {
        assert(p@ =~= p@.subrange(0, n as int));
        return Some(String::new());
    }
    if !head {
        assert(p@ != base@) by {
            if p@ == base@ {
                assert(p@.subrange(0, n as int) =~= p@);
            }
        }
        return None;
    }
    assert(p@ != base@);
    if cb[n - 1] == '/' {
        return Some(string_from_range(&cp, n, cp.len()));
    }
    if cp[n] == '/' {
        return Some(string_from_range(&cp, n + 1, cp.len()));
    }
    None
}

/// Finds the first `/`.
fn find_slash(cs: &Vec<char>) -> (r: Option<usize>)
    ensures
        r matches Some(i) ==> first_slash(cs@) == Some(i as int),
        r is None ==> first_slash(cs@) is None,
{
    let mut i: usize = 0;
    assert(cs@.subrange(0, cs@.len() as int) =~= cs@);
    while i < cs.len()
        invariant
            i <= cs.len(),
            first_slash(cs@) == (match first_slash(cs@.subrange(i as int, cs@.len() as int)) {
                Some(k) => Some(k + i),
                None => None,
            }),
        decreases cs.len() - i,
    {
        let ghost rest = cs@.subrange(i as int, cs@.len() as int);
        if cs[i] == '/' {
            assert(rest[0] == '/');
            return Some(i);
        }
        assert(rest.subrange(1, rest.len() as int) =~= cs@.subrange(i + 1, cs@.len() as int));
        i = i + 1;
    }
    assert(cs@.subrange(i as int, cs@.len() as int).len() == 0);
    None
}

/// First component of a path.
pub fn first_component(p: &str) -> (r: Option<String>)
    ensures
        r.deep_view() == first_component_of(p@),
{
    let cs = chars_of(p);
    assert(cs@.subrange(0, cs@.len() as int) =~= cs@);
    if cs.len() == 0 {
        return None;
    }
    if cs[0] == '/' {
        let mut s = String::new();
        push_char(&mut s, '/');
        assert(s@ =~= seq!['/']);
        return Some(s);
    }
    match find_slash(&cs) {
        Some(i) => {
            proof {
                lemma_first_slash_bound(cs@);
            }
            Some(string_from_range(&cs, 0, i))
        },
        None => Some(copy_str(p)),
    }
}

proof fn lemma_first_slash_bound(p: Seq<char>)
    ensures
        first_slash(p) matches Some(i) ==> 0 <= i < p.len(),
    decreases p.len(),
{
    if p.len() > 0 && p[0] != '/' {
        lemma_first_slash_bound(p.subrange(1, p.len() as int));
    }
}

} // verus!

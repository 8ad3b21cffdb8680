//! Small helpers for moving between strings and character vectors.

use vstd::prelude::*;

verus! {

/// The characters of a string slice, in order.
pub fn chars_of_str(s: &str) -> (r: Vec<char>)
    ensures
        r@ == s@,
{
    let n = s.unicode_len();
    let mut out: Vec<char> = Vec::new();
    let mut i: usize = 0;
    while i < n
        invariant
            i <= n,
            n == s@.len(),
            out@ == s@.subrange(0, i as int),
        decreases n - i,
    {
        out.push(s.get_char(i));
        proof {
            assert(out@ =~= s@.subrange(0, i as int + 1));
        }
        i = i + 1;
    }
    proof {
        assert(s@.subrange(0, n as int) =~= s@);
    }
    out
}

/// Whether a character vector holds exactly the characters of a string
/// slice.
pub fn chars_eq_str(v: &Vec<char>, s: &str) -> (r: bool)
    ensures
        r == (v@ == s@),
{
    let n = s.unicode_len();
    if v.len() != n {
        proof {
            assert(v@.len() != s@.len());
        }
        return false;
    }
    let mut i: usize = 0;
    while i < n
        invariant
            i <= n,
            n == s@.len(),
            n == v@.len(),
            forall|k: int| 0 <= k < i ==> v@[k] == s@[k],
        decreases n - i,
    {
        if v[i] != s.get_char(i) {
            return false;
        }
        i = i + 1;
    }
    proof {
        assert(v@ =~= s@);
    }
    true
}

/// Whether two character vectors hold the same characters.
pub fn chars_eq(a: &Vec<char>, b: &Vec<char>) -> (r: bool)
    ensures
        r == (a@ == b@),
{
    if a.len() != b.len() {
        proof {
            assert(a@.len() != b@.len());
        }
        return false;
    }
    let n = a.len();
    let mut i: usize = 0;
    while i < n
        invariant
            i <= n,
            n == a@.len(),
            n == b@.len(),
            forall|k: int| 0 <= k < i ==> a@[k] == b@[k],
        decreases n - i,
    {
        if a[i] != b[i] {
            return false;
        }
        i = i + 1;
    }
    proof {
        assert(a@ =~= b@);
    }
    true
}

/// The part of a path after its last separator: the file or directory name
/// the path points at.
pub open spec fn path_base(p: Seq<char>) -> Seq<char>
    decreases p.len(),
{
    if p.len() == 0 {
        p
    } else if p.last() == '/' {
        path_base(p.drop_last())
    } else if exists|k: int| 0 <= k < p.len() && p[k] == '/' {
        p.subrange(last_slash(p) + 1, p.len() as int)
    } else {
        p
    }
}

/// The index of the last separator in a path that has one.
pub open spec fn last_slash(p: Seq<char>) -> int
    decreases p.len(),
{
    if p.len() == 0 {
        -1
    } else if p.last() == '/' {
        p.len() - 1
    } else {
        last_slash(p.drop_last())
    }
}

proof fn lemma_last_slash(p: Seq<char>)
    requires
        exists|k: int| 0 <= k < p.len() && p[k] == '/',
    ensures
        0 <= last_slash(p) < p.len(),
        p[last_slash(p)] == '/',
        forall|k: int| last_slash(p) < k < p.len() ==> p[k] != '/',
    decreases p.len(),
{
    if p.len() == 0 {
    } else if p.last() == '/' {
    } else {
        let w = choose|k: int| 0 <= k < p.len() && p[k] == '/';
        assert(p.drop_last()[w] == '/');
        lemma_last_slash(p.drop_last());
        assert forall|k: int| last_slash(p) < k < p.len() implies p[k] != '/' by {
            if k < p.len() - 1 {
                assert(p.drop_last()[k] == p[k]);
            }
        }
    }
}

/// The name after the last separator, computed on a character vector.  A
/// trailing separator (or several) is ignored.
pub fn path_base_x(p: &Vec<char>) -> (r: Vec<char>)
    ensures
        r@ == path_base(p@),
{
    // Drop trailing separators.
    proof {
        assert(p@.subrange(0, p@.len() as int) =~= p@);
    }
    let mut end = p.len();
    while end > 0 && p[end - 1] == '/'
        invariant
            end <= p@.len(),
            path_base(p@) == path_base(p@.subrange(0, end as int)),
        decreases end,
    {
        proof {
            assert(p@.subrange(0, end as int).drop_last() =~= p@.subrange(0, end as int - 1));
        }
        end = end - 1;
    }
    let ghost q = p@.subrange(0, end as int);
    // Find the last separator before `end`.
    let mut start = end;
    while start > 0 && p[start - 1] != '/'
        invariant
            start <= end <= p@.len(),
            q == p@.subrange(0, end as int),
            forall|k: int| start <= k < end ==> p@[k] != '/',
        decreases start,
    {
        start = start - 1;
    }
    let mut out: Vec<char> = Vec::new();
    let mut i = start;
    while i < end
        invariant
            start <= i <= end <= p@.len(),
            out@ == p@.subrange(start as int, i as int),
        decreases end - i,
    {
        out.push(p[i]);
        proof {
            assert(out@ =~= p@.subrange(start as int, i as int + 1));
        }
        i = i + 1;
    }
    proof {
        assert(out@ =~= q.subrange(start as int, end as int));
        if end == 0 {
            assert(q.len() == 0);
            assert(path_base(q) == q);
            assert(out@ =~= q);
        } else if start == 0 {
            assert(q.last() != '/');
            if exists|k: int| 0 <= k < q.len() && q[k] == '/' {
                let w = choose|k: int| 0 <= k < q.len() && q[k] == '/';
                assert(p@[w] == q[w]);
                assert(false);
            }
            assert(path_base(q) == q);
            assert(out@ =~= q);
        } else {
            assert(p@[start - 1] == '/');
            assert(q[start - 1] == '/');
            assert(q.last() != '/');
            lemma_last_slash(q);
            assert(last_slash(q) == start - 1) by {
                if last_slash(q) > start - 1 {
                    assert(p@[last_slash(q)] == q[last_slash(q)]);
                } else if last_slash(q) < start - 1 {
                    assert(q[start - 1] != '/');
                }
            }
            assert(path_base(q) == q.subrange(start as int, end as int));
        }
    }
    out
}

/// Joins a directory path and a name with a separator.
pub fn path_join(dir: &str, name: &str) -> (r: Vec<char>)
    ensures
        r@ == dir@ + seq!['/'] + name@,
{
    let mut out = chars_of_str(dir);
    out.push('/');
    let rest = chars_of_str(name);
    let n = rest.len();
    let mut i: usize = 0;
    while i < n
        invariant
            i <= n,
            n == rest@.len(),
            out@ == dir@ + seq!['/'] + rest@.subrange(0, i as int),
        decreases n - i,
    {
        out.push(rest[i]);
        proof {
            assert(out@ =~= dir@ + seq!['/'] + rest@.subrange(0, i as int + 1));
        }
        i = i + 1;
    }
    proof {
        assert(rest@.subrange(0, n as int) =~= rest@);
        assert(out@ =~= dir@ + seq!['/'] + rest@);
    }
    out
}

} // verus!

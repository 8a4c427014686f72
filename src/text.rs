//! Character-level helpers on file names and templates.
use vstd::prelude::*;

verus! {

/// `tok` occurs in `s` starting at position `i`.
pub open spec fn occurs_at(s: Seq<char>, i: int, tok: Seq<char>) -> bool {
    0 <= i && i + tok.len() <= s.len() && s.subrange(i, i + tok.len()) == tok
}

/// `s` ends with `suffix`.
pub open spec fn ends_with_spec(s: Seq<char>, suffix: Seq<char>) -> bool {
    occurs_at(s, s.len() - suffix.len(), suffix)
}

/// `s` starts with `prefix`.
pub open spec fn starts_with_spec(s: Seq<char>, prefix: Seq<char>) -> bool {
    occurs_at(s, 0, prefix)
}

/// The last component of a path: the text after its last `/`, or the whole
/// path when it holds none. Unlike `Path::file_name`, a trailing `/` is not
/// skipped (the result is then empty) and `..` is kept as a name; the paths
/// of file events end in neither.
pub open spec fn base_name_spec(p: Seq<char>) -> Seq<char>
    decreases p.len(),
{
    if p.len() == 0 {
        p
    } else if p.last() == '/' {
        Seq::empty()
    } else {
        base_name_spec(p.drop_last()).push(p.last())
    }
}

/// Whether `tok` occurs in `s` at position `i`; `n` is the length of `s`.
pub fn occurs_at_exec(s: &str, n: usize, i: usize, tok: &str) -> (r: bool)
    requires
        n == s@.len(),
    ensures
        r == occurs_at(s@, i as int, tok@),
{
    let m = tok.unicode_len();
    if i > n || m > n - i {
        return false;
    }
    let mut k: usize = 0;
    while k < m
        invariant
            m == tok@.len(),
            i + m <= n,
            n == s@.len(),
            k <= m,
            forall|j: int| 0 <= j < k ==> s@[i + j] == tok@[j],
        decreases m - k,
    {
        if s.get_char(i + k) != tok.get_char(k) {
            assert(s@.subrange(i as int, i + m)[k as int] != tok@[k as int]);
            return false;
        }
        k = k + 1;
    }
    assert(s@.subrange(i as int, i + m) =~= tok@);
    true
}

/// Whether `s` ends with `suffix`.
pub fn ends_with(s: &str, suffix: &str) -> (r: bool)
    ensures
        r == ends_with_spec(s@, suffix@),
{
    let n = s.unicode_len();
    let m = suffix.unicode_len();
    if m > n {
        return false;
    }
    occurs_at_exec(s, n, n - m, suffix)
}

/// Whether `s` starts with `prefix`.
pub fn starts_with(s: &str, prefix: &str) -> (r: bool)
    ensures
        r == starts_with_spec(s@, prefix@),
{
    let n = s.unicode_len();
    occurs_at_exec(s, n, 0, prefix)
}

proof fn lemma_base_name_suffix(p: Seq<char>, k: int)
    requires
        0 <= k <= p.len(),
        forall|j: int| k <= j < p.len() ==> p[j] != '/',
        k == 0 || p[k - 1] == '/',
    ensures
        base_name_spec(p) == p.subrange(k, p.len() as int),
    decreases p.len(),
{
    if p.len() == k {
        if k > 0 {
            assert(p.last() == '/');
        }
        assert(p.subrange(k, p.len() as int) =~= Seq::<char>::empty());
    } else {
        let q = p.drop_last();
        assert forall|j: int| k <= j < q.len() implies q[j] != '/' by {
            assert(q[j] == p[j]);
        }
        if k > 0 {
            assert(q[k - 1] == p[k - 1]);
        }
        lemma_base_name_suffix(q, k);
        assert(p.subrange(k, p.len() as int) =~= q.subrange(k, q.len() as int).push(p.last()));
    }
}

/// The last component of `path` (see [`base_name_spec`]).
pub fn base_name(path: &str) -> (r: &str)
    ensures
        r@ == base_name_spec(path@),
{
    let n = path.unicode_len();
    let mut k: usize = n;
    while k > 0 && path.get_char(k - 1) != '/'
        invariant
            k <= n,
            n == path@.len(),
            forall|j: int| k <= j < n ==> path@[j] != '/',
        decreases k,
    {
        k = k - 1;
    }
    proof {
        lemma_base_name_suffix(path@, k as int);
    }
    path.substring_char(k, n)
}

/// Position `i` of `p` holds a path component that is exactly `~`.
pub open spec fn tilde_at(p: Seq<char>, i: int) -> bool {
    0 <= i < p.len() && p[i] == '~' && (i == 0 || p[i - 1] == '/') && (i + 1 == p.len() || p[i + 1]
        == '/')
}

/// The position of the last `~` component among the first `k` characters of
/// `p`, or -1 when there is none.
pub open spec fn last_tilde(p: Seq<char>, k: int) -> int
    decreases k,
{
    if k <= 0 {
        -1
    } else if tilde_at(p, k - 1) {
        k - 1
    } else {
        last_tilde(p, k - 1)
    }
}

/// `p` from position `i` on, with every `~` component replaced by `home`.
pub open spec fn subst_tilde_from(p: Seq<char>, i: int, home: Seq<char>) -> Seq<char>
    decreases p.len() - i,
{
    if i < 0 || i >= p.len() {
        Seq::empty()
    } else if tilde_at(p, i) {
        home + subst_tilde_from(p, i + 1, home)
    } else {
        seq![p[i]] + subst_tilde_from(p, i + 1, home)
    }
}

/// `home` is an absolute path.
pub open spec fn is_absolute(home: Seq<char>) -> bool {
    home.len() > 0 && home[0] == '/'
}

/// `p` with its `~` components replaced by `home`, as appending the
/// components one by one to a path buffer does: an absolute home replaces
/// what was built so far, so only the text after the last `~` component is
/// kept after it; a relative home is inserted where each `~` stands.
pub open spec fn expand_tilde_spec(p: Seq<char>, home: Seq<char>) -> Seq<char> {
    if is_absolute(home) {
        let t = last_tilde(p, p.len() as int);
        if t < 0 {
            p
        } else {
            home + p.subrange(t + 1, p.len() as int)
        }
    } else {
        subst_tilde_from(p, 0, home)
    }
}

/// Whether position `i` of `path` (of length `n`) is a `~` component.
fn tilde_at_exec(path: &str, n: usize, i: usize) -> (r: bool)
    requires
        n == path@.len(),
        i < n,
    ensures
        r == tilde_at(path@, i as int),
{
    path.get_char(i) == '~' && (i == 0 || path.get_char(i - 1) == '/') && (i + 1 == n
        || path.get_char(i + 1) == '/')
}

/// Replaces the `~` components of `path` by the home directory `home`. An
/// absolute home starts the path afresh, dropping whatever stood before the
/// last `~` component; a relative one takes the place of each `~`.
pub fn expand_tilde(path: &str, home: &str) -> (r: String)
    ensures
        r@ == expand_tilde_spec(path@, home@),
{
    let n = path.unicode_len();
    let absolute = home.unicode_len() > 0 && home.get_char(0) == '/';
    if absolute {
        let mut k: usize = n;
        while k > 0
            invariant
                k <= n,
                n == path@.len(),
                last_tilde(path@, n as int) == last_tilde(path@, k as int),
                is_absolute(home@),
            decreases k,
        {
            let i = k - 1;
            if tilde_at_exec(path, n, i) {
                let mut r = String::from_str(home);
                r.append(path.substring_char(k, n));
                return r;
            }
            k = i;
        }
        return String::from_str(path);
    }
    let ghost p = path@;
    let mut out = String::new();
    let mut start: usize = 0;
    let mut i: usize = 0;
    while i < n
        invariant
            n == p.len(),
            p == path@,
            start <= i <= n,
            out@ + p.subrange(start as int, i as int) + subst_tilde_from(p, i as int, home@)
                == subst_tilde_from(p, 0, home@),
        decreases n - i,
    {
        if tilde_at_exec(path, n, i) {
            let ghost before = out@;
            out.append(path.substring_char(start, i));
            out.append(home);
            proof {
                assert(p.subrange(i + 1, i + 1) =~= Seq::<char>::empty());
                assert(before + p.subrange(start as int, i as int) + subst_tilde_from(p, i as int, home@)
                    =~= out@ + p.subrange(i + 1, i + 1) + subst_tilde_from(p, i + 1, home@));
            }
            i = i + 1;
            start = i;
        } else {
            proof {
                assert(p.subrange(start as int, i + 1) =~= p.subrange(start as int, i as int).push(p[i as int]));
                assert(out@ + p.subrange(start as int, i as int) + subst_tilde_from(p, i as int, home@)
                    =~= out@ + p.subrange(start as int, i + 1) + subst_tilde_from(p, i + 1, home@));
            }
            i = i + 1;
        }
    }
    out.append(path.substring_char(start, n));
    proof {
        assert(out@ =~= out@ + subst_tilde_from(p, n as int, home@));
    }
    out
}

/// The path `p` lies in the directory tree rooted at `root`.
pub open spec fn under_root_spec(root: Seq<char>, p: Seq<char>) -> bool {
    starts_with_spec(p, root) && (root.len() == 0 || root.last() == '/' || p.len() == root.len()
        || p[root.len() as int] == '/')
}

/// Whether `path` lies in the directory tree rooted at `root`.
pub fn is_under(root: &str, path: &str) -> (r: bool)
    ensures
        r == under_root_spec(root@, path@),
{
    let n = path.unicode_len();
    let m = root.unicode_len();
    if !occurs_at_exec(path, n, 0, root) {
        return false;
    }
    m == 0 || root.get_char(m - 1) == '/' || n == m || path.get_char(m) == '/'
}

} // verus!

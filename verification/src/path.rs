//! The path model of the library.
//!
//! A path is the character sequence that the directory walk produces: a root
//! joined with file names by `/`. The functions here give the parent, the file
//! name, joining, containment, the path relative to a root, and the key by
//! which paths are ordered (component by component, as `Path` orders them).

use vstd::prelude::*;

verus! {

/// Index of the last `/` among the first `n` characters of `p`, or -1.
pub open spec fn last_sep_before(p: Seq<char>, n: int) -> int
    decreases n,
{
    if n <= 0 {
        -1
    } else if p[n - 1] == '/' {
        n - 1
    } else {
        last_sep_before(p, n - 1)
    }
}

/// Index of the last `/` in `p`, or -1.
pub open spec fn last_sep(p: Seq<char>) -> int {
    last_sep_before(p, p.len() as int)
}

/// `p` without trailing `/` separators (`/` itself stays).
pub open spec fn trimmed(p: Seq<char>) -> Seq<char>
    decreases p.len(),
{
    if p.len() > 1 && p.last() == '/' {
        trimmed(p.drop_last())
    } else {
        p
    }
}

/// The last component of `p`, trailing separators aside; the whole of `p`
/// where that component is empty (as for `/`).
pub open spec fn file_name(p: Seq<char>) -> Seq<char> {
    let q = trimmed(p);
    let tail = q.subrange(last_sep(q) + 1, q.len() as int);
    if tail.len() == 0 {
        q
    } else {
        tail
    }
}

/// The directory that holds `p`, trailing separators aside; none for the
/// empty path and for `/`.
pub open spec fn parent(p: Seq<char>) -> Option<Seq<char>> {
    let q = trimmed(p);
    parent_untrimmed(q)
}

/// The directory that holds `p`, where `p` has no trailing separator.
pub open spec fn parent_untrimmed(p: Seq<char>) -> Option<Seq<char>> {
    let k = last_sep(p);
    if p.len() == 0 {
        None
    } else if k < 0 {
        Some(Seq::empty())
    } else if k == 0 {
        if p.len() == 1 {
            None
        } else {
            Some(seq!['/'])
        }
    } else {
        Some(p.subrange(0, k))
    }
}

/// `name` inside the directory `dir`.
pub open spec fn join(dir: Seq<char>, name: Seq<char>) -> Seq<char> {
    if dir.len() == 0 {
        name
    } else if dir.last() == '/' {
        dir + name
    } else {
        dir + seq!['/'] + name
    }
}

/// Whether `p` is `base` or lies below it, component-wise.
pub open spec fn within(p: Seq<char>, base: Seq<char>) -> bool {
    &&& base.len() <= p.len()
    &&& p.take(base.len() as int) == base
    &&& (p.len() == base.len() || (base.len() > 0 && base.last() == '/') || p[base.len() as int]
        == '/')
}

/// `p` relative to `root`: what follows `root` where `p` lies within it,
/// else `p` itself.
pub open spec fn relative_to(p: Seq<char>, root: Seq<char>) -> Seq<char> {
    if within(p, root) {
        if p.len() == root.len() {
            Seq::empty()
        } else if root.len() > 0 && root.last() == '/' {
            p.skip(root.len() as int)
        } else {
            p.skip(root.len() as int + 1)
        }
    } else {
        p
    }
}

/// Whether one of the `/`-separated components of `p` is `comp`.
pub open spec fn has_component(p: Seq<char>, comp: Seq<char>) -> bool {
    exists|i: int|
        #![trigger p.subrange(i, i + comp.len())]
        0 <= i && i + comp.len() <= p.len() && (i == 0 || p[i - 1] == '/') && p.subrange(
            i,
            i + comp.len(),
        ) == comp && (i + comp.len() == p.len() || p[i + comp.len()] == '/')
}

/// The ordering key of one character of a path: the separator sorts before
/// every other character, so that keys order paths component by component.
pub open spec fn path_char_key(c: char) -> u64 {
    if c == '/' {
        0
    } else {
        (c as u32 as u64 + 1) as u64
    }
}

/// The ordering key of a path.
pub open spec fn path_key(p: Seq<char>) -> Seq<u64> {
    p.map_values(|c: char| path_char_key(c))
}

/// The ordering key of a plain string: its characters as numbers.
pub open spec fn text_key(s: Seq<char>) -> Seq<u64> {
    s.map_values(|c: char| c as u64)
}

/// Whether `s` ends with `suffix`.
pub open spec fn ends_with(s: Seq<char>, suffix: Seq<char>) -> bool {
    suffix.len() <= s.len() && s.skip(s.len() - suffix.len()) == suffix
}

/// The index of the last `/` in `p`.
pub fn last_sep_index(p: &[char]) -> (r: Option<usize>)
    ensures
        match r {
            Some(i) => i == last_sep(p@),
            None => last_sep(p@) == -1,
        },
        r matches Some(i) ==> i < p@.len(),
{
    let mut n = p.len();
    while n > 0
        invariant
            n <= p.len(),
            last_sep(p@) == last_sep_before(p@, n as int),
        decreases n,
    {
        if p[n - 1] == '/' {
            return Some(n - 1);
        }
        n -= 1;
    }
    None
}

/// The characters of `v` from `lo` up to `hi`.
pub fn sub_chars(v: &[char], lo: usize, hi: usize) -> (r: Vec<char>)
    requires
        lo <= hi <= v.len(),
    ensures
        r@ == v@.subrange(lo as int, hi as int),
{
    let mut r: Vec<char> = Vec::new();
    let mut i = lo;
    while i < hi
        invariant
            lo <= i <= hi <= v.len(),
            r@ == v@.subrange(lo as int, i as int),
        decreases hi - i,
    {
        r.push(v[i]);
        i += 1;
    }
    r
}

/// `p` without trailing `/` separators (see [`trimmed`]).
pub fn trimmed_of(p: &[char]) -> (r: Vec<char>)
    ensures
        r@ == trimmed(p@),
{
    let mut n = p.len();
    assert(p@.take(p.len() as int) =~= p@);
    while n > 1 && p[n - 1] == '/'
        invariant
            n <= p.len(),
            trimmed(p@) == trimmed(p@.take(n as int)),
        decreases n,
    {
        assert(p@.take(n as int).drop_last() =~= p@.take(n - 1));
        n -= 1;
    }
    let r = sub_chars(p, 0, n);
    assert(r@ == p@.take(n as int));
    proof {
        assert(p@.take(p.len() as int) =~= p@);
    }
    r
}

/// The last component of `p` (see [`file_name`]).
pub fn file_name_of(p0: &[char]) -> (r: Vec<char>)
    ensures
        r@ == file_name(p0@),
{
    let q = trimmed_of(p0);
    let p = q.as_slice();
    let start = match last_sep_index(p) {
        Some(i) => {
            assert(i < p.len());
            i + 1
        },
        None => 0,
    };
    let tail = sub_chars(p, start, p.len());
    if tail.len() == 0 {
        sub_chars(p, 0, p.len())
    } else {
        tail
    }
}

/// The directory that holds `p` (see [`parent`]).
pub fn parent_of(p0: &[char]) -> (r: Option<Vec<char>>)
    ensures
        match r {
            Some(d) => parent(p0@) == Some(d@),
            None => parent(p0@) is None,
        },
{
    let q = trimmed_of(p0);
    let p = q.as_slice();
    if p.len() == 0 {
        return None;
    }
    match last_sep_index(p) {
        None => Some(Vec::new()),
        Some(k) => {
            if k == 0 {
                if p.len() == 1 {
                    None
                } else {
                    let mut d: Vec<char> = Vec::new();
                    d.push('/');
                    assert(d@ == seq!['/']);
                    Some(d)
                }
            } else {
                Some(sub_chars(p, 0, k))
            }
        },
    }
}

/// `name` inside the directory `dir` (see [`join`]).
pub fn join_of(dir: &[char], name: &[char]) -> (r: Vec<char>)
    ensures
        r@ == join(dir@, name@),
{
    let mut r = sub_chars(dir, 0, dir.len());
    if dir.len() > 0 && dir[dir.len() - 1] != '/' {
        r.push('/');
    }
    let ghost mid = r@;
    let mut i: usize = 0;
    while i < name.len()
        invariant
            i <= name.len(),
            r@ == mid + name@.take(i as int),
        decreases name.len() - i,
    {
        r.push(name[i]);
        assert(name@.take(i as int + 1) == name@.take(i as int).push(name@[i as int]));
        i += 1;
    }
    assert(name@.take(name.len() as int) == name@);
    r
}

/// Whether `a` begins with `b`.
pub fn starts_with_chars(a: &[char], b: &[char]) -> (r: bool)
    ensures
        r == (b@.len() <= a@.len() && a@.take(b@.len() as int) == b@),
{
    if b.len() > a.len() {
        return false;
    }
    let mut i: usize = 0;
    while i < b.len()
        invariant
            i <= b.len() <= a.len(),
            forall|k: int| 0 <= k < i ==> a@[k] == b@[k],
        decreases b.len() - i,
    {
        if a[i] != b[i] {
            assert(a@.take(b@.len() as int)[i as int] != b@[i as int]);
            return false;
        }
        i += 1;
    }
    assert(a@.take(b@.len() as int) =~= b@);
    true
}

/// Whether `s` ends with `suffix`.
pub fn ends_with_chars(s: &[char], suffix: &[char]) -> (r: bool)
    ensures
        r == ends_with(s@, suffix@),
{
    if suffix.len() > s.len() {
        return false;
    }
    let off = s.len() - suffix.len();
    let mut i: usize = 0;
    while i < suffix.len()
        invariant
            i <= suffix.len(),
            off + suffix.len() == s.len(),
            forall|k: int| 0 <= k < i ==> s@[off + k] == suffix@[k],
        decreases suffix.len() - i,
    {
        if s[off + i] != suffix[i] {
            assert(s@.skip(off as int)[i as int] != suffix@[i as int]);
            return false;
        }
        i += 1;
    }
    assert(s@.skip(off as int) =~= suffix@);
    true
}

/// Whether `p` is `base` or lies below it (see [`within`]).
pub fn is_within(p: &[char], base: &[char]) -> (r: bool)
    ensures
        r == within(p@, base@),
{
    if !starts_with_chars(p, base) {
        return false;
    }
    p.len() == base.len() || (base.len() > 0 && base[base.len() - 1] == '/') || p[base.len()]
        == '/'
}

/// `p` relative to `root` (see [`relative_to`]).
pub fn relative_of(p: &[char], root: &[char]) -> (r: Vec<char>)
    ensures
        r@ == relative_to(p@, root@),
{
    if is_within(p, root) {
        if p.len() == root.len() {
            Vec::new()
        } else if root.len() > 0 && root[root.len() - 1] == '/' {
            sub_chars(p, root.len(), p.len())
        } else {
            sub_chars(p, root.len() + 1, p.len())
        }
    } else {
        sub_chars(p, 0, p.len())
    }
}

/// Whether one of the components of `p` is `comp` (see [`has_component`]).
pub fn has_component_of(p: &[char], comp: &[char]) -> (r: bool)
    requires
        comp.len() > 0,
    ensures
        r == has_component(p@, comp@),
{
    if comp.len() > p.len() {
        return false;
    }
    let mut i: usize = 0;
    while i <= p.len() - comp.len()
        invariant
            0 < comp.len() <= p.len(),
            i <= p.len() - comp.len() + 1,
            forall|j: int|
                #![trigger p@.subrange(j, j + comp@.len())]
                0 <= j < i ==> !(j + comp@.len() <= p@.len() && (j == 0 || p@[j - 1] == '/')
                    && p@.subrange(j, j + comp@.len()) == comp@ && (j + comp@.len() == p@.len()
                    || p@[j + comp@.len()] == '/')),
        decreases p.len() - i,
    {
        let at_start = i == 0 || p[i - 1] == '/';
        if at_start {
            let mut k: usize = 0;
            let mut same = true;
            while k < comp.len()
                invariant
                    k <= comp.len(),
                    i + comp.len() <= p.len(),
                    same == (forall|m: int| 0 <= m < k ==> p@[i + m] == comp@[m]),
                decreases comp.len() - k,
            {
                if p[i + k] != comp[k] {
                    same = false;
                }
                k += 1;
            }
            let at_end = i + comp.len() == p.len() || p[i + comp.len()] == '/';
            if same {
                assert(p@.subrange(i as int, i + comp@.len()) =~= comp@);
            } else {
                let ghost m = choose|m: int| 0 <= m < comp.len() && p@[i + m] != comp@[m];
                assert(p@.subrange(i as int, i + comp@.len())[m] != comp@[m]);
            }
            if same && at_end {
                return true;
            }
        }
        i += 1;
    }
    false
}

/// The ordering key of a path (see [`path_key`]).
pub fn path_key_of(p: &[char]) -> (r: Vec<u64>)
    ensures
        r@ == path_key(p@),
{
    let mut r: Vec<u64> = Vec::new();
    let mut i: usize = 0;
    while i < p.len()
        invariant
            i <= p.len(),
            r@ == path_key(p@.take(i as int)),
        decreases p.len() - i,
    {
        let c = p[i];
        let k: u64 = if c == '/' {
            0
        } else {
            let v: u32 = c as u32;
            v as u64 + 1
        };
        r.push(k);
        assert(p@.take(i as int + 1) == p@.take(i as int).push(c));
        assert(path_key(p@.take(i as int + 1)) =~= path_key(p@.take(i as int)).push(k));
        i += 1;
    }
    assert(p@.take(p.len() as int) == p@);
    r
}

/// The ordering key of a plain string (see [`text_key`]).
pub fn text_key_of(s: &[char]) -> (r: Vec<u64>)
    ensures
        r@ == text_key(s@),
{
    let mut r: Vec<u64> = Vec::new();
    let mut i: usize = 0;
    while i < s.len()
        invariant
            i <= s.len(),
            r@ == text_key(s@.take(i as int)),
        decreases s.len() - i,
    {
        let c = s[i];
        r.push(c as u64);
        assert(s@.take(i as int + 1) == s@.take(i as int).push(c));
        assert(text_key(s@.take(i as int + 1)) =~= text_key(s@.take(i as int)).push(c as u64));
        i += 1;
    }
    assert(s@.take(s.len() as int) == s@);
    r
}

} // verus!

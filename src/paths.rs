//! Relative links between output files.
use vstd::prelude::*;
use crate::slug::push_char;

verus! {

pub open spec fn views(v: Seq<String>) -> Seq<Seq<char>> {
    v.map_values(|s: String| s@)
}

/// One step of splitting a path: the finished components and the one being read.
pub open spec fn split_step(st: (Seq<Seq<char>>, Seq<char>), c: char) -> (Seq<Seq<char>>, Seq<char>) {
    if c == '/' {
        (if st.1.len() > 0 { st.0.push(st.1) } else { st.0 }, Seq::empty())
    } else {
        (st.0, st.1.push(c))
    }
}

pub open spec fn split_scan(p: Seq<char>) -> (Seq<Seq<char>>, Seq<char>)
    decreases p.len(),
{
    if p.len() == 0 {
        (Seq::empty(), Seq::empty())
    } else {
        split_step(split_scan(p.drop_last()), p.last())
    }
}

/// The non-empty names between the slashes of a path.
pub open spec fn segments(p: Seq<char>) -> Seq<Seq<char>> {
    let st = split_scan(p);
    if st.1.len() > 0 {
        st.0.push(st.1)
    } else {
        st.0
    }
}

pub open spec fn root() -> Seq<char> {
    seq!['/']
}

pub open spec fn parent() -> Seq<char> {
    seq!['.', '.']
}

/// The components of a path: the root, if the path is absolute, then its names.
pub open spec fn components_of(p: Seq<char>) -> Seq<Seq<char>> {
    if p.len() > 0 && p[0] == '/' {
        seq![root()] + segments(p)
    } else {
        segments(p)
    }
}

/// The length of the common prefix of `a` and `b`, counted on from `i`.
pub open spec fn common_from(a: Seq<Seq<char>>, b: Seq<Seq<char>>, i: int) -> int
    decreases a.len() - i,
{
    if 0 <= i < a.len() && i < b.len() && a[i] == b[i] {
        common_from(a, b, i + 1)
    } else {
        i
    }
}

pub open spec fn common_len(a: Seq<Seq<char>>, b: Seq<Seq<char>>) -> int {
    common_from(a, b, 0)
}

/// One parent marker for each component of `from` past the common prefix,
/// then the components of `to` past it.
pub open spec fn relative(from: Seq<Seq<char>>, to: Seq<Seq<char>>) -> Seq<Seq<char>> {
    let n = common_len(from, to);
    Seq::new((from.len() - n) as nat, |k: int| parent()) + to.subrange(n, to.len() as int)
}

/// Appends a component to a path: the root starts the path anew, anything
/// else follows a slash.
pub open spec fn join_step(acc: Seq<char>, c: Seq<char>) -> Seq<char> {
    if c == root() {
        root()
    } else if acc.len() == 0 {
        c
    } else if acc.last() == '/' {
        acc + c
    } else {
        acc + seq!['/'] + c
    }
}

pub open spec fn join(c: Seq<Seq<char>>) -> Seq<char>
    decreases c.len(),
{
    if c.len() == 0 {
        Seq::empty()
    } else {
        join_step(join(c.drop_last()), c.last())
    }
}

/// The path that leads from the file at `from` to the file at `to`.
pub open spec fn relative_path_of(from: Seq<char>, to: Seq<char>) -> Seq<char> {
    join(relative(components_of(from), components_of(to)))
}

proof fn lemma_common_from_self(a: Seq<Seq<char>>, i: int)
    requires
        0 <= i <= a.len(),
    ensures
        common_from(a, a, i) == a.len(),
    decreases a.len() - i,
{
    if i < a.len() {
        lemma_common_from_self(a, i + 1);
    }
}

/// A file is reached from itself by the empty path.
pub proof fn lemma_relative_path_self(p: Seq<char>)
    ensures
        relative_path_of(p, p) == Seq::<char>::empty(),
{
    let c = components_of(p);
    lemma_common_from_self(c, 0);
    assert(relative(c, c) =~= Seq::<Seq<char>>::empty());
}

fn is_root(c: &String) -> (r: bool)
    ensures
        r == (c@ == root()),
{
    let n = c.unicode_len();
    if n == 1 {
        let x = c.as_str().get_char(0);
        proof {
            if x == '/' {
                assert(c@ =~= root());
            }
        }
        x == '/'
    } else {
        false
    }
}

/// Splits a path into its components.
pub fn path_components(p: &str) -> (r: Vec<String>)
    ensures
        views(r@) == components_of(p@),
{
    let mut done: Vec<String> = Vec::new();
    let mut cur = String::new();
    let n = p.unicode_len();
    if n > 0 && p.get_char(0) == '/' {
        let mut r = String::new();
        push_char(&mut r, '/');
        done.push(r);
    }
    let ghost lead: Seq<Seq<char>> = views(done@);
    let mut i: usize = 0;
    assert(p@.subrange(0, 0) =~= Seq::<char>::empty());
    assert(views(done@) =~= lead + split_scan(Seq::<char>::empty()).0);
    while i < n
        invariant
            n == p@.len(),
            i <= n,
            views(done@) == lead + split_scan(p@.subrange(0, i as int)).0,
            cur@ == split_scan(p@.subrange(0, i as int)).1,
        decreases n - i,
    {
        let c = p.get_char(i);
        let ghost pre = p@.subrange(0, i as int);
        assert(p@.subrange(0, i + 1).drop_last() =~= pre);
        let ghost st = split_scan(pre);
        if c == '/' {
            if cur.unicode_len() > 0 {
                let ghost old_done = done@;
                let ghost cv = cur@;
                done.push(cur);
                assert(views(done@) =~= views(old_done).push(cv));
                assert(views(done@) =~= lead + st.0.push(st.1));
            }
            cur = String::new();
        } else {
            push_char(&mut cur, c);
        }
        i = i + 1;
    }
    assert(p@.subrange(0, n as int) =~= p@);
    if cur.unicode_len() > 0 {
        let ghost before = done@;
        done.push(cur);
        assert(views(done@) =~= views(before).push(cur@));
    }
    proof {
        if n > 0 && p@[0] == '/' {
            assert(lead =~= seq![root()]);
        } else {
            assert(lead =~= Seq::<Seq<char>>::empty());
        }
    }
    assert(views(done@) =~= components_of(p@));
    done
}

/// The components that lead from `from` to `to`: as many parent markers as
/// `from` has past their common prefix, then the rest of `to`.
pub fn relative_components(from: &Vec<String>, to: &Vec<String>) -> (r: Vec<String>)
    ensures
        views(r@) == relative(views(from@), views(to@)),
{
    let ghost a = views(from@);
    let ghost b = views(to@);
    let mut n: usize = 0;
    while n < from.len() && n < to.len() && from[n] == to[n]
        invariant
            n <= from.len(),
            n <= to.len(),
            a == views(from@),
            b == views(to@),
            common_from(a, b, n as int) == common_len(a, b),
        decreases from.len() - n,
    {
        assert(a[n as int] == b[n as int]);
        n = n + 1;
    }
    let ghost cn = common_len(a, b);
    assert(cn == n as int);
    let mut r: Vec<String> = Vec::new();
    let u = from.len() - n;
    let mut k: usize = 0;
    while k < u
        invariant
            k <= u,
            views(r@) =~= Seq::new(k as nat, |j: int| parent()),
        decreases u - k,
    {
        let mut up = String::new();
        push_char(&mut up, '.');
        push_char(&mut up, '.');
        assert(up@ =~= parent());
        let ghost old_r = r@;
        r.push(up);
        assert(views(r@) =~= views(old_r).push(parent()));
        k = k + 1;
    }
    let ghost ups = views(r@);
    let mut j: usize = n;
    while j < to.len()
        invariant
            n <= j <= to.len(),
            b == views(to@),
            views(r@) =~= ups + b.subrange(n as int, j as int),
        decreases to.len() - j,
    {
        let ghost old_r = r@;
        let x = to[j].clone();
        r.push(x);
        assert(views(r@) =~= views(old_r).push(b[j as int]));
        assert(b.subrange(n as int, j + 1) =~= b.subrange(n as int, j as int).push(b[j as int]));
        j = j + 1;
    }
    r
}

/// Joins components into a path, a slash between two names.
pub fn join_components(c: &Vec<String>) -> (r: String)
    ensures
        r@ == join(views(c@)),
{
    let ghost v = views(c@);
    let mut acc = String::new();
    let mut i: usize = 0;
    assert(v.subrange(0, 0) =~= Seq::<Seq<char>>::empty());
    while i < c.len()
        invariant
            i <= c.len(),
            v == views(c@),
            acc@ == join(v.subrange(0, i as int)),
        decreases c.len() - i,
    {
        let x = &c[i];
        assert(v.subrange(0, i + 1).drop_last() =~= v.subrange(0, i as int));
        if is_root(x) {
            acc = String::new();
            push_char(&mut acc, '/');
            assert(acc@ =~= root());
        } else {
            let m = acc.unicode_len();
            if m == 0 {
                acc = x.clone();
            } else if acc.as_str().get_char(m - 1) == '/' {
                acc.append(x.as_str());
            } else {
                push_char(&mut acc, '/');
                acc.append(x.as_str());
            }
        }
        i = i + 1;
    }
    assert(v.subrange(0, c.len() as int) =~= v);
    acc
}

/// The path that leads from the file at `from` to the file at `to`, for
/// linking one generated page from another: `..` for each component of
/// `from` past the common prefix, then the rest of `to`.
pub fn relative_path(from: &str, to: &str) -> (r: String)
    ensures
        r@ == relative_path_of(from@, to@),
{
    let a = path_components(from);
    let b = path_components(to);
    let c = relative_components(&a, &b);
    join_components(&c)
}

} // verus!

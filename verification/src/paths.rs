//! Unix path texts as `std::path::Path` reads them: joining, components, and the
//! order and equality that `PathBuf`'s `Ord` and `Eq` define through components.
use vstd::prelude::*;
use vstd::string::*;
use crate::order::{
    text_less,
    text_less_exec,
    lemma_text_less_irreflexive,
    lemma_text_less_total,
    lemma_text_less_transitive,
};
use crate::text::{chars_of, chars_equal, push_char};

verus! {

/// One component of a path.
pub enum Component {
    /// The root `/` of an absolute path.
    Root,
    /// A leading `.`.
    Current,
    /// `..`.
    Parent,
    /// Any other name.
    Normal(Seq<char>),
}

/// `base` joined with the relative path `rel` (what `PathBuf::push` does for a
/// relative argument on Unix: a separator is added unless `base` is empty or
/// already ends with one).
pub open spec fn join(base: Seq<char>, rel: Seq<char>) -> Seq<char> {
    if base.len() == 0 {
        rel
    } else if base.last() == '/' {
        base + rel
    } else {
        base + seq!['/'] + rel
    }
}

/// Joins `base` and the relative path `rel`.
pub fn join_exec(base: &str, rel: &str) -> (r: String)
    ensures
        r@ == join(base@, rel@),
{
    let b = chars_of(base);
    if b.len() == 0 {
        return String::from_str(rel);
    }
    let mut r = String::from_str(base);
    if b[b.len() - 1] != '/' {
        push_char(&mut r, '/');
    }
    r.append(rel);
    proof {
        assert(b@.last() == base@.last());
    }
    r
}

/// The components one `/`-separated piece contributes: nothing for an empty piece
/// or `.`, `Parent` for `..`, else the name.
pub open spec fn piece_components(p: Seq<char>) -> Seq<Component> {
    if p.len() == 0 || p == seq!['.'] {
        Seq::empty()
    } else if p == seq!['.', '.'] {
        seq![Component::Parent]
    } else {
        seq![Component::Normal(p)]
    }
}

/// The first index `>= i` holding `/`, or the length.
pub open spec fn next_slash(s: Seq<char>, i: int) -> int
    decreases s.len() - i,
{
    if i < 0 {
        0
    } else if i >= s.len() {
        s.len() as int
    } else if s[i] == '/' {
        i
    } else {
        next_slash(s, i + 1)
    }
}

/// `next_slash` lands on a separator or at the end, never before `i`.
pub proof fn lemma_next_slash(s: Seq<char>, i: int)
    requires
        0 <= i <= s.len(),
    ensures
        i <= next_slash(s, i) <= s.len(),
        next_slash(s, i) < s.len() ==> s[next_slash(s, i)] == '/',
    decreases s.len() - i,
{
    if i < s.len() && s[i] != '/' {
        lemma_next_slash(s, i + 1);
    }
}

/// The components of the text after the path's start.
pub open spec fn body_components(s: Seq<char>) -> Seq<Component>
    decreases s.len(),
{
    let k = next_slash(s, 0);
    proof {
        lemma_next_slash(s, 0);
    }
    if k >= s.len() {
        piece_components(s)
    } else {
        piece_components(s.subrange(0, k)) + body_components(s.subrange(k + 1, s.len() as int))
    }
}

/// The components of a Unix path text (`Path::components`): the root for an
/// absolute path, `.` only at the very start, then the names, with empty pieces
/// and inner `.` dropped.
#[verifier::opaque]
pub open spec fn path_components(s: Seq<char>) -> Seq<Component> {
    if s.len() > 0 && s[0] == '/' {
        seq![Component::Root] + body_components(s.subrange(1, s.len() as int))
    } else if s.len() > 0 && s[0] == '.' && (s.len() == 1 || s[1] == '/') {
        seq![Component::Current] + body_components(s.subrange(1, s.len() as int))
    } else {
        body_components(s)
    }
}

/// The position of a component's variant in `Component`'s order.
pub open spec fn component_rank(c: Component) -> int {
    match c {
        Component::Root => 0,
        Component::Current => 1,
        Component::Parent => 2,
        Component::Normal(_) => 3,
    }
}

/// Component `a` sorts before `b`: by variant, names by text.
pub open spec fn component_less(a: Component, b: Component) -> bool {
    match (a, b) {
        (Component::Normal(x), Component::Normal(y)) => text_less(x, y),
        _ => component_rank(a) < component_rank(b),
    }
}

/// Component list `a` sorts before `b` (lexicographic).
pub open spec fn components_less(a: Seq<Component>, b: Seq<Component>) -> bool
    decreases a.len(),
{
    if a.len() == 0 {
        b.len() > 0
    } else if b.len() == 0 {
        false
    } else if a[0] != b[0] {
        component_less(a[0], b[0])
    } else {
        components_less(a.drop_first(), b.drop_first())
    }
}

/// Path `a` sorts before path `b` (`Path`'s `Ord`).
pub open spec fn path_less(a: Seq<char>, b: Seq<char>) -> bool {
    components_less(path_components(a), path_components(b))
}

/// Paths `a` and `b` are equal (`Path`'s `Eq`).
pub open spec fn same_path(a: Seq<char>, b: Seq<char>) -> bool {
    path_components(a) == path_components(b)
}

proof fn lemma_component_less_total(a: Component, b: Component)
    ensures
        a != b ==> (component_less(a, b) || component_less(b, a)),
        !(component_less(a, b) && component_less(b, a)),
        !component_less(a, a),
{
    if let Component::Normal(x) = a {
        lemma_text_less_irreflexive(x);
    }
    match (a, b) {
        (Component::Normal(x), Component::Normal(y)) => {
            lemma_text_less_total(x, y);
            lemma_text_less_irreflexive(x);
        },
        _ => {},
    }
}

proof fn lemma_component_less_transitive(a: Component, b: Component, c: Component)
    requires
        component_less(a, b),
        component_less(b, c),
    ensures
        component_less(a, c),
{
    match (a, b, c) {
        (Component::Normal(x), Component::Normal(y), Component::Normal(z)) => {
            lemma_text_less_transitive(x, y, z);
        },
        _ => {},
    }
}

/// The order of component lists is strict and total.
pub proof fn lemma_components_less_total(a: Seq<Component>, b: Seq<Component>)
    ensures
        a != b ==> (components_less(a, b) || components_less(b, a)),
        !(components_less(a, b) && components_less(b, a)),
    decreases a.len(),
{
    if a.len() > 0 && b.len() > 0 {
        if a[0] == b[0] {
            lemma_components_less_total(a.drop_first(), b.drop_first());
            if a != b {
                assert(a =~= seq![a[0]] + a.drop_first());
                assert(b =~= seq![b[0]] + b.drop_first());
            }
        } else {
            lemma_component_less_total(a[0], b[0]);
        }
    } else if a.len() == 0 && b.len() == 0 {
        assert(a =~= b);
    }
}

/// No component list sorts before itself.
pub proof fn lemma_components_less_irreflexive(a: Seq<Component>)
    ensures
        !components_less(a, a),
{
    lemma_components_less_total(a, a);
}

/// The order of component lists is transitive.
pub proof fn lemma_components_less_transitive(a: Seq<Component>, b: Seq<Component>, c: Seq<Component>)
    requires
        components_less(a, b),
        components_less(b, c),
    ensures
        components_less(a, c),
    decreases a.len(),
{
    if a.len() > 0 && b.len() > 0 && c.len() > 0 {
        if a[0] == b[0] && b[0] == c[0] {
            lemma_components_less_transitive(a.drop_first(), b.drop_first(), c.drop_first());
        } else if a[0] == b[0] {
        } else if b[0] == c[0] {
        } else {
            lemma_component_less_transitive(a[0], b[0], c[0]);
            if a[0] == c[0] {
                lemma_component_less_total(a[0], b[0]);
            }
        }
    }
}

/// A component computed at run time.
pub enum PathPart {
    Root,
    Current,
    Parent,
    Normal(Vec<char>),
}

impl View for PathPart {
    type V = Component;

    open spec fn view(&self) -> Component {
        match self {
            PathPart::Root => Component::Root,
            PathPart::Current => Component::Current,
            PathPart::Parent => Component::Parent,
            PathPart::Normal(v) => Component::Normal(v@),
        }
    }
}

/// The views of a list of run-time components.
pub open spec fn parts_view(v: Seq<PathPart>) -> Seq<Component> {
    Seq::new(v.len(), |i: int| v[i]@)
}

fn push_piece(out: &mut Vec<PathPart>, s: &Vec<char>, from: usize, to: usize)
    requires
        from <= to <= s.len(),
    ensures
        parts_view(final(out)@) == parts_view(old(out)@) + piece_components(s@.subrange(from as int, to as int)),
{
    let ghost p = s@.subrange(from as int, to as int);
    let ghost before = parts_view(out@);
    if to == from {
        assert(parts_view(out@) =~= before + piece_components(p));
        return;
    }
    if to == from + 1 && s[from] == '.' {
        assert(p =~= seq!['.']);
        assert(parts_view(out@) =~= before + piece_components(p));
        return;
    }
    if to - from == 2 && s[from] == '.' && s[from + 1] == '.' {
        assert(p =~= seq!['.', '.']);
        out.push(PathPart::Parent);
        assert(parts_view(out@) =~= before + piece_components(p));
        return;
    }
    let name = crate::text::slice_chars(s, from, to);
    proof {
        if p == seq!['.'] {
            assert(p.len() == 1 && p[0] == '.');
            assert(s@[from as int] == p[0]);
        }
        if p == seq!['.', '.'] {
            assert(p.len() == 2 && p[0] == '.' && p[1] == '.');
            assert(s@[from as int] == p[0] && s@[from + 1] == p[1]);
        }
    }
    out.push(PathPart::Normal(name));
    assert(parts_view(out@) =~= before + piece_components(p));
}

/// The components of the path text `path`.
pub fn path_parts(path: &str) -> (r: Vec<PathPart>)
    ensures
        parts_view(r@) == path_components(path@),
{
    reveal(path_components);
    let s = chars_of(path);
    let mut out: Vec<PathPart> = Vec::new();
    let mut start: usize = 0;
    if s.len() > 0 && s[0] == '/' {
        out.push(PathPart::Root);
        start = 1;
    } else if s.len() > 0 && s[0] == '.' && (s.len() == 1 || s[1] == '/') {
        out.push(PathPart::Current);
        start = 1;
    }
    proof {
        let head = parts_view(out@);
        if start == 0 {
            assert(s@.subrange(0, s@.len() as int) =~= s@);
            assert(head + body_components(s@) =~= body_components(s@));
        } else if s@[0] == '/' {
            assert(head =~= seq![Component::Root]);
        } else {
            assert(head =~= seq![Component::Current]);
        }
    }
    let mut i: usize = start;
    while i < s.len()
        invariant
            start <= i <= s.len(),
            path_components(s@) == parts_view(out@) + body_components(s@.subrange(i as int, s@.len() as int)),
        decreases s.len() - i,
    {
        let ghost rest = s@.subrange(i as int, s@.len() as int);
        let mut k: usize = i;
        while k < s.len() && s[k] != '/'
            invariant
                i <= k <= s.len(),
                rest == s@.subrange(i as int, s@.len() as int),
                next_slash(rest, 0) == next_slash(rest, k - i),
            decreases s.len() - k,
        {
            k += 1;
        }
        proof {
            lemma_next_slash(rest, 0);
            assert(next_slash(rest, k - i) == k - i);
            assert(rest.subrange(0, k - i) =~= s@.subrange(i as int, k as int));
        }
        let ghost before = parts_view(out@);
        push_piece(&mut out, &s, i, k);
        if k >= s.len() {
            proof {
                assert(rest =~= s@.subrange(i as int, k as int));
                assert(s@.subrange(k as int, s@.len() as int) =~= Seq::<char>::empty());
                assert(body_components(Seq::<char>::empty()) =~= Seq::<Component>::empty());
                assert(parts_view(out@) + body_components(s@.subrange(k as int, s@.len() as int)) =~= parts_view(out@));
            }
            i = k;
        } else {
            proof {
                assert(rest.subrange(k - i + 1, rest.len() as int) =~= s@.subrange(k + 1, s@.len() as int));
                assert(before + piece_components(s@.subrange(i as int, k as int)) + body_components(
                    s@.subrange(k + 1, s@.len() as int),
                ) =~= before + (piece_components(s@.subrange(i as int, k as int)) + body_components(
                    s@.subrange(k + 1, s@.len() as int),
                )));
            }
            i = k + 1;
        }
    }
    proof {
        assert(s@.subrange(i as int, s@.len() as int) =~= Seq::<char>::empty());
        assert(body_components(Seq::<char>::empty()) =~= Seq::<Component>::empty());
        assert(parts_view(out@) + body_components(s@.subrange(i as int, s@.len() as int)) =~= parts_view(out@));
    }
    out
}

fn part_rank(p: &PathPart) -> (r: u8)
    ensures
        r as int == component_rank(p@),
{
    match p {
        PathPart::Root => 0,
        PathPart::Current => 1,
        PathPart::Parent => 2,
        PathPart::Normal(_) => 3,
    }
}

fn part_equal(a: &PathPart, b: &PathPart) -> (r: bool)
    ensures
        r == (a@ == b@),
{
    match (a, b) {
        (PathPart::Normal(x), PathPart::Normal(y)) => chars_equal(x, y),
        _ => part_rank(a) == part_rank(b),
    }
}

fn part_less(a: &PathPart, b: &PathPart) -> (r: bool)
    ensures
        r == component_less(a@, b@),
{
    match (a, b) {
        (PathPart::Normal(x), PathPart::Normal(y)) => text_less_exec(x, y),
        _ => part_rank(a) < part_rank(b),
    }
}

/// Whether component list `a` sorts before `b`.
pub fn parts_less(a: &Vec<PathPart>, b: &Vec<PathPart>) -> (r: bool)
    ensures
        r == components_less(parts_view(a@), parts_view(b@)),
{
    let ghost av = parts_view(a@);
    let ghost bv = parts_view(b@);
    let mut i: usize = 0;
    assert(av.skip(0) =~= av);
    assert(bv.skip(0) =~= bv);
    while i < a.len() && i < b.len() && part_equal(&a[i], &b[i])
        invariant
            i <= a.len(),
            i <= b.len(),
            av == parts_view(a@),
            bv == parts_view(b@),
            components_less(av, bv) == components_less(av.skip(i as int), bv.skip(i as int)),
        decreases a.len() - i,
    {
        assert(av.skip(i as int).drop_first() =~= av.skip(i + 1));
        assert(bv.skip(i as int).drop_first() =~= bv.skip(i + 1));
        i += 1;
    }
    if i == a.len() {
        i < b.len()
    } else if i == b.len() {
        false
    } else {
        assert(av.skip(i as int)[0] == a@[i as int]@);
        assert(bv.skip(i as int)[0] == b@[i as int]@);
        part_less(&a[i], &b[i])
    }
}

/// Whether two component lists are equal.
pub fn parts_equal(a: &Vec<PathPart>, b: &Vec<PathPart>) -> (r: bool)
    ensures
        r == (parts_view(a@) == parts_view(b@)),
{
    if a.len() != b.len() {
        assert(parts_view(a@).len() != parts_view(b@).len());
        return false;
    }
    let mut i: usize = 0;
    while i < a.len()
        invariant
            i <= a.len(),
            a.len() == b.len(),
            forall|j: int| 0 <= j < i ==> a@[j]@ == b@[j]@,
        decreases a.len() - i,
    {
        if !part_equal(&a[i], &b[i]) {
            assert(parts_view(a@)[i as int] != parts_view(b@)[i as int]);
            return false;
        }
        i += 1;
    }
    assert(parts_view(a@) =~= parts_view(b@));
    true
}

/// `s` lists paths in strictly increasing path order.
pub open spec fn paths_sorted(s: Seq<String>) -> bool {
    forall|i: int, j: int| 0 <= i < j < s.len() ==> path_less(s[i]@, s[j]@)
}

/// `cands[k]` is the first candidate naming its path.
pub open spec fn first_of_path(cands: Seq<Seq<char>>, k: int) -> bool {
    &&& 0 <= k < cands.len()
    &&& forall|j: int| 0 <= j < k ==> !same_path(#[trigger] cands[j], cands[k])
}

/// The path `x` is listed in `r`.
pub open spec fn listed(r: Seq<String>, x: Seq<char>) -> bool {
    exists|i: int| 0 <= i < r.len() && same_path(#[trigger] r[i]@, x)
}

/// `x` is one of the first `n` candidates, the first naming its path.
pub open spec fn drawn(cands: Seq<Seq<char>>, n: int, x: Seq<char>) -> bool {
    exists|k: int| 0 <= k < n && first_of_path(cands, k) && x == #[trigger] cands[k]
}

/// Each of the first `n` candidates names a path listed in `r`.
pub open spec fn covers(r: Seq<String>, cands: Seq<Seq<char>>, n: int) -> bool {
    forall|k: int| 0 <= k < n ==> #[trigger] listed(r, cands[k])
}

/// Each text in `r` is one of the first `n` candidates, the first naming its path.
pub open spec fn drawn_from(r: Seq<String>, cands: Seq<Seq<char>>, n: int) -> bool {
    forall|i: int| 0 <= i < r.len() ==> #[trigger] drawn(cands, n, r[i]@)
}

/// `r` is `cands` sorted by path and without repeated paths, keeping the first
/// text given for each path (`sort` then `dedup` on `PathBuf`s).
pub open spec fn sorted_unique_paths(cands: Seq<Seq<char>>, r: Seq<String>) -> bool {
    &&& paths_sorted(r)
    &&& covers(r, cands, cands.len() as int)
    &&& drawn_from(r, cands, cands.len() as int)
}

/// The place of `cp` among the sorted component lists `parts`: all before it
/// sort before `cp`, the one at it does not.
fn place_of(parts: &Vec<Vec<PathPart>>, cp: &Vec<PathPart>) -> (p: usize)
    ensures
        p <= parts@.len(),
        forall|q: int| 0 <= q < p ==> components_less(parts_view((#[trigger] parts@[q])@), parts_view(cp@)),
        p < parts@.len() ==> !components_less(parts_view(parts@[p as int]@), parts_view(cp@)),
{
    let mut p: usize = 0;
    while p < parts.len() && parts_less(&parts[p], cp)
        invariant
            p <= parts@.len(),
            forall|q: int| 0 <= q < p ==> components_less(parts_view((#[trigger] parts@[q])@), parts_view(cp@)),
        decreases parts@.len() - p,
    {
        p += 1;
    }
    p
}

/// A path placed after every path that sorts before it, and before one that
/// neither sorts before it nor equals it, equals none in the list and sorts
/// before the one at its place.
proof fn lemma_place(r0: Seq<String>, p: int, x: Seq<char>)
    requires
        paths_sorted(r0),
        0 <= p <= r0.len(),
        forall|q: int| 0 <= q < p ==> path_less(#[trigger] r0[q]@, x),
        p < r0.len() ==> !path_less(r0[p]@, x) && !same_path(r0[p]@, x),
    ensures
        forall|q: int| 0 <= q < r0.len() ==> !same_path(#[trigger] r0[q]@, x),
        p < r0.len() ==> path_less(x, r0[p]@),
{
    let xk = path_components(x);
    if p < r0.len() {
        lemma_components_less_total(path_components(r0[p]@), xk);
    }
    assert forall|q: int| 0 <= q < r0.len() implies !same_path(#[trigger] r0[q]@, x) by {
        if q < p {
            lemma_components_less_irreflexive(xk);
        } else if q > p {
            assert(path_less(r0[p]@, r0[q]@));
            lemma_components_less_transitive(xk, path_components(r0[p]@), path_components(r0[q]@));
            lemma_components_less_irreflexive(xk);
        }
    }
}

/// Inserting `x` at such a place keeps the list sorted.
proof fn lemma_insert_sorted(r0: Seq<String>, p: int, x: String)
    requires
        paths_sorted(r0),
        0 <= p <= r0.len(),
        forall|q: int| 0 <= q < p ==> path_less(#[trigger] r0[q]@, x@),
        p < r0.len() ==> path_less(x@, r0[p]@),
    ensures
        paths_sorted(r0.insert(p, x)),
{
    let rn = r0.insert(p, x);
    assert forall|i: int, j: int| 0 <= i < j < rn.len() implies path_less(rn[i]@, rn[j]@) by {
        if j < p {
            assert(rn[i] == r0[i] && rn[j] == r0[j]);
        } else if j == p {
            assert(rn[i] == r0[i]);
        } else if i == p {
            assert(rn[j] == r0[j - 1]);
            if j - 1 > p {
                assert(path_less(r0[p]@, r0[j - 1]@));
                lemma_components_less_transitive(
                    path_components(x@),
                    path_components(r0[p]@),
                    path_components(r0[j - 1]@),
                );
            }
        } else if i < p {
            assert(rn[i] == r0[i] && rn[j] == r0[j - 1]);
        } else {
            assert(rn[i] == r0[i - 1] && rn[j] == r0[j - 1]);
        }
    }
}

/// Inserting the `n`-th candidate, whose path is new, keeps `covers` and
/// `drawn_from` for one more candidate.
proof fn lemma_insert_tracks(cv: Seq<Seq<char>>, n: int, r0: Seq<String>, p: int, x: String)
    requires
        0 <= n < cv.len(),
        x@ == cv[n],
        0 <= p <= r0.len(),
        covers(r0, cv, n),
        drawn_from(r0, cv, n),
        forall|q: int| 0 <= q < r0.len() ==> !same_path(#[trigger] r0[q]@, x@),
    ensures
        covers(r0.insert(p, x), cv, n + 1),
        drawn_from(r0.insert(p, x), cv, n + 1),
{
    let rn = r0.insert(p, x);
    assert forall|j: int| 0 <= j < n implies !same_path(#[trigger] cv[j], cv[n]) by {
        assert(listed(r0, cv[j]));
        let i = choose|i: int| 0 <= i < r0.len() && same_path(#[trigger] r0[i]@, cv[j]);
        assert(!same_path(r0[i]@, x@));
    }
    assert(first_of_path(cv, n));
    assert forall|k: int| 0 <= k < n + 1 implies #[trigger] listed(rn, cv[k]) by {
        if k == n {
            assert(same_path(rn[p]@, cv[k]));
        } else {
            assert(listed(r0, cv[k]));
            let i = choose|i: int| 0 <= i < r0.len() && same_path(#[trigger] r0[i]@, cv[k]);
            if i < p {
                assert(rn[i] == r0[i]);
                assert(same_path(rn[i]@, cv[k]));
            } else {
                assert(rn[i + 1] == r0[i]);
                assert(same_path(rn[i + 1]@, cv[k]));
            }
        }
    }
    assert forall|i: int| 0 <= i < rn.len() implies #[trigger] drawn(cv, n + 1, rn[i]@) by {
        if i == p {
            assert(rn[i]@ == cv[n]);
        } else {
            let j = if i < p { i } else { i - 1 };
            assert(rn[i] == r0[j]);
            assert(drawn(cv, n, r0[j]@));
            let k = choose|k: int| 0 <= k < n && first_of_path(cv, k) && r0[j]@ == #[trigger] cv[k];
            assert(rn[i]@ == cv[k]);
        }
    }
}

/// A candidate whose path is already listed keeps `covers` and `drawn_from`
/// for one more candidate.
proof fn lemma_skip_tracks(cv: Seq<Seq<char>>, n: int, r: Seq<String>, p: int)
    requires
        0 <= n < cv.len(),
        0 <= p < r.len(),
        same_path(r[p]@, cv[n]),
        covers(r, cv, n),
        drawn_from(r, cv, n),
    ensures
        covers(r, cv, n + 1),
        drawn_from(r, cv, n + 1),
{
    assert forall|k: int| 0 <= k < n + 1 implies #[trigger] listed(r, cv[k]) by {
        if k == n {
            assert(same_path(r[p]@, cv[k]));
        }
    }
    assert forall|i: int| 0 <= i < r.len() implies #[trigger] drawn(cv, n + 1, r[i]@) by {
        assert(drawn(cv, n, r[i]@));
        let k = choose|k: int| 0 <= k < n && first_of_path(cv, k) && r[i]@ == #[trigger] cv[k];
        assert(r[i]@ == cv[k]);
    }
}

/// Sorts path texts by path and removes repeated paths, keeping the first text
/// given for each path.
pub fn sort_unique_paths(cands: &Vec<String>) -> (r: Vec<String>)
    ensures
        sorted_unique_paths(cands@.map_values(|s: String| s@), r@),
{
    let ghost cv = cands@.map_values(|s: String| s@);
    let mut r: Vec<String> = Vec::new();
    let mut parts: Vec<Vec<PathPart>> = Vec::new();
    let mut n: usize = 0;
    while n < cands.len()
        invariant
            n <= cands.len(),
            cv == cands@.map_values(|s: String| s@),
            r@.len() == parts@.len(),
            forall|i: int| 0 <= i < r@.len() ==> parts_view((#[trigger] parts@[i])@) == path_components(r@[i]@),
            paths_sorted(r@),
            covers(r@, cv, n as int),
            drawn_from(r@, cv, n as int),
        decreases cands.len() - n,
    {
        let c = &cands[n];
        let cp = path_parts(c.as_str());
        assert(cv[n as int] == c@);
        let p = place_of(&parts, &cp);
        assert forall|q: int| 0 <= q < p implies path_less(#[trigger] r@[q]@, c@) by {
            assert(components_less(parts_view(parts@[q]@), parts_view(cp@)));
        }
        let dup = p < r.len() && parts_equal(&parts[p], &cp);
        if !dup {
            let ghost r0 = r@;
            let ghost p0 = parts@;
            proof {
                if p < r0.len() {
                    assert(parts_view(parts@[p as int]@) == path_components(r0[p as int]@));
                }
                lemma_place(r0, p as int, c@);
            }
            let x = c.clone();
            proof {
                lemma_insert_sorted(r0, p as int, x);
                lemma_insert_tracks(cv, n as int, r0, p as int, x);
            }
            r.insert(p, x);
            parts.insert(p, cp);
            assert(r@ == r0.insert(p as int, x));
            assert forall|i: int| 0 <= i < r@.len() implies parts_view((#[trigger] parts@[i])@) == path_components(r@[i]@) by {
                if i < p {
                    assert(parts@[i] == p0[i]);
                } else if i > p {
                    assert(parts@[i] == p0[i - 1]);
                }
            }
        } else {
            proof {
                assert(parts_view(parts@[p as int]@) == path_components(r@[p as int]@));
                lemma_skip_tracks(cv, n as int, r@, p as int);
            }
        }
        n += 1;
    }
    r
}

/// Whether the path `p` is listed in `roots` (compared as paths).
pub fn contains_path(roots: &Vec<String>, p: &str) -> (r: bool)
    ensures
        r == listed(roots@, p@),
{
    let pp = path_parts(p);
    let mut i: usize = 0;
    while i < roots.len()
        invariant
            i <= roots@.len(),
            parts_view(pp@) == path_components(p@),
            forall|j: int| 0 <= j < i ==> !same_path(#[trigger] roots@[j]@, p@),
        decreases roots@.len() - i,
    {
        let rp = path_parts(roots[i].as_str());
        if parts_equal(&rp, &pp) {
            assert(same_path(roots@[i as int]@, p@));
            return true;
        }
        i += 1;
    }
    false
}

} // verus!

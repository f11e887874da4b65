//! Paths compared the way `std::path::Path` compares them on Unix, component by component, and
//! paths made relative to a directory.
use vstd::prelude::*;

use crate::ghci::parse::scan::{lit_at, starts_with_at};
use crate::text::{chars_of, chars_of_range, push_char, push_str, string_of_range};
use core::cmp::Ordering;

verus! {

/// A component of a path, as `Path::components` yields it on Unix.
pub enum PathComponent {
    /// The leading `/`.
    RootDir,
    /// A leading `.` of a relative path.
    CurDir,
    /// A `..`.
    ParentDir,
    /// Any other non-empty piece between separators.
    Normal(Seq<char>),
}

/// The first separator at or after `i`, or the end of the path.
pub open spec fn next_sep(t: Seq<char>, i: int) -> int
    decreases t.len() - i,
{
    if i < 0 || i >= t.len() {
        t.len() as int
    } else if t[i] == '/' {
        i
    } else {
        next_sep(t, i + 1)
    }
}

/// The next separator is at or after `i`, and within the path.
pub proof fn lemma_next_sep(t: Seq<char>, i: int)
    requires
        0 <= i <= t.len(),
    ensures
        i <= next_sep(t, i) <= t.len(),
        next_sep(t, i) < t.len() ==> t[next_sep(t, i)] == '/',
    decreases t.len() - i,
{
    if i < t.len() && t[i] != '/' {
        lemma_next_sep(t, i + 1);
    }
}

/// The components of the pieces of `t` from `i` on: separators are repeated or trailing at will,
/// and `.` pieces are dropped.
pub open spec fn pieces_from(t: Seq<char>, i: int) -> Seq<PathComponent>
    decreases t.len() - i,
{
    if i < 0 || i > t.len() {
        Seq::empty()
    } else {
        let q = next_sep(t, i);
        proof {
            lemma_next_sep(t, i);
        }
        let piece = t.subrange(i, q);
        let rest = if q < t.len() {
            pieces_from(t, q + 1)
        } else {
            Seq::empty()
        };
        if piece.len() == 0 || piece == seq!['.'] {
            rest
        } else if piece == seq!['.', '.'] {
            seq![PathComponent::ParentDir] + rest
        } else {
            seq![PathComponent::Normal(piece)] + rest
        }
    }
}

/// Does the relative path `t` start with a `.` piece?
pub open spec fn starts_with_cur_dir(t: Seq<char>) -> bool {
    t.len() > 0 && t[0] == '.' && (t.len() == 1 || t[1] == '/')
}

/// The components of a path: a root for a leading `/`, a current directory for a leading `.`
/// piece of a relative path, then the pieces.
pub open spec fn path_components(t: Seq<char>) -> Seq<PathComponent> {
    if t.len() > 0 && t[0] == '/' {
        seq![PathComponent::RootDir] + pieces_from(t, 1)
    } else if starts_with_cur_dir(t) {
        seq![PathComponent::CurDir] + pieces_from(t, 1)
    } else {
        pieces_from(t, 0)
    }
}

/// Text compared character by character (by code point, as UTF-8 bytes compare), a proper
/// prefix first: -1, 0 or 1.
pub open spec fn order_of_chars(a: Seq<char>, b: Seq<char>) -> int
    decreases a.len(),
{
    if a.len() == 0 {
        if b.len() == 0 {
            0
        } else {
            -1
        }
    } else if b.len() == 0 {
        1
    } else if a[0] < b[0] {
        -1
    } else if a[0] > b[0] {
        1
    } else {
        order_of_chars(a.drop_first(), b.drop_first())
    }
}

/// The rank of a component's kind: root, current directory, parent directory, normal.
pub open spec fn component_rank(c: PathComponent) -> int {
    match c {
        PathComponent::RootDir => 0,
        PathComponent::CurDir => 1,
        PathComponent::ParentDir => 2,
        PathComponent::Normal(_) => 3,
    }
}

/// Components compared by kind, then normal ones by their text: -1, 0 or 1.
pub open spec fn order_of_component(a: PathComponent, b: PathComponent) -> int {
    if component_rank(a) < component_rank(b) {
        -1
    } else if component_rank(a) > component_rank(b) {
        1
    } else {
        match (a, b) {
            (PathComponent::Normal(x), PathComponent::Normal(y)) => order_of_chars(x, y),
            _ => 0,
        }
    }
}

/// Component sequences compared lexicographically, a proper prefix first: -1, 0 or 1.
pub open spec fn order_of_components(a: Seq<PathComponent>, b: Seq<PathComponent>) -> int
    decreases a.len(),
{
    if a.len() == 0 {
        if b.len() == 0 {
            0
        } else {
            -1
        }
    } else if b.len() == 0 {
        1
    } else if order_of_component(a[0], b[0]) != 0 {
        order_of_component(a[0], b[0])
    } else {
        order_of_components(a.drop_first(), b.drop_first())
    }
}

/// Two paths compared by their components: -1, 0 or 1.
pub open spec fn path_order(a: Seq<char>, b: Seq<char>) -> int {
    order_of_components(path_components(a), path_components(b))
}

/// Text is in order with itself only when equal, and swapping the sides flips the order.
pub proof fn lemma_order_of_chars(a: Seq<char>, b: Seq<char>)
    ensures
        order_of_chars(a, b) == 0 <==> a == b,
        order_of_chars(a, b) == -order_of_chars(b, a),
        -1 <= order_of_chars(a, b) <= 1,
    decreases a.len(),
{
    if a.len() > 0 && b.len() > 0 {
        lemma_order_of_chars(a.drop_first(), b.drop_first());
        if a[0] == b[0] && a.drop_first() == b.drop_first() {
            assert(a =~= seq![a[0]] + a.drop_first());
            assert(b =~= seq![b[0]] + b.drop_first());
        }
        if a == b {
            assert(a.drop_first() == b.drop_first());
        }
    } else if a.len() == 0 && b.len() == 0 {
        assert(a =~= b);
    }
}

proof fn lemma_order_of_component(a: PathComponent, b: PathComponent)
    ensures
        order_of_component(a, b) == 0 <==> a == b,
        order_of_component(a, b) == -order_of_component(b, a),
        -1 <= order_of_component(a, b) <= 1,
{
    match (a, b) {
        (PathComponent::Normal(x), PathComponent::Normal(y)) => lemma_order_of_chars(x, y),
        _ => {},
    }
}

/// Component sequences are in order with each other only when equal, and swapping the sides
/// flips the order.
pub proof fn lemma_order_of_components(a: Seq<PathComponent>, b: Seq<PathComponent>)
    ensures
        order_of_components(a, b) == 0 <==> a == b,
        order_of_components(a, b) == -order_of_components(b, a),
        -1 <= order_of_components(a, b) <= 1,
    decreases a.len(),
{
    if a.len() > 0 && b.len() > 0 {
        lemma_order_of_component(a[0], b[0]);
        lemma_order_of_components(a.drop_first(), b.drop_first());
        if a[0] == b[0] && a.drop_first() == b.drop_first() {
            assert(a =~= seq![a[0]] + a.drop_first());
            assert(b =~= seq![b[0]] + b.drop_first());
        }
        if a == b {
            assert(a.drop_first() == b.drop_first());
        }
    } else if a.len() == 0 && b.len() == 0 {
        assert(a =~= b);
    }
}

/// Two paths are in order with each other exactly when they have the same components, and
/// swapping them flips the order.
pub proof fn lemma_path_order(a: Seq<char>, b: Seq<char>)
    ensures
        path_order(a, b) == 0 <==> path_components(a) == path_components(b),
        path_order(a, b) == -path_order(b, a),
        -1 <= path_order(a, b) <= 1,
{
    lemma_order_of_components(path_components(a), path_components(b));
}

proof fn lemma_order_of_chars_trans(a: Seq<char>, b: Seq<char>, c: Seq<char>)
    requires
        order_of_chars(a, b) == -1,
        order_of_chars(b, c) == -1,
    ensures
        order_of_chars(a, c) == -1,
    decreases a.len(),
{
    if a.len() > 0 && b.len() > 0 && c.len() > 0 && a[0] == b[0] && b[0] == c[0] {
        lemma_order_of_chars_trans(a.drop_first(), b.drop_first(), c.drop_first());
    }
}

proof fn lemma_order_of_component_trans(a: PathComponent, b: PathComponent, c: PathComponent)
    requires
        order_of_component(a, b) == -1,
        order_of_component(b, c) == -1,
    ensures
        order_of_component(a, c) == -1,
{
    match (a, b, c) {
        (PathComponent::Normal(x), PathComponent::Normal(y), PathComponent::Normal(z)) => {
            lemma_order_of_chars_trans(x, y, z);
        },
        _ => {},
    }
}

proof fn lemma_order_of_components_trans(
    a: Seq<PathComponent>,
    b: Seq<PathComponent>,
    c: Seq<PathComponent>,
)
    requires
        order_of_components(a, b) == -1,
        order_of_components(b, c) == -1,
    ensures
        order_of_components(a, c) == -1,
    decreases a.len(),
{
    if a.len() > 0 && b.len() > 0 && c.len() > 0 {
        lemma_order_of_component(a[0], b[0]);
        lemma_order_of_component(b[0], c[0]);
        lemma_order_of_component(a[0], c[0]);
        if order_of_component(a[0], b[0]) == -1 && order_of_component(b[0], c[0]) == -1 {
            lemma_order_of_component_trans(a[0], b[0], c[0]);
        } else if order_of_component(a[0], b[0]) == 0 && order_of_component(b[0], c[0]) == 0 {
            lemma_order_of_components_trans(a.drop_first(), b.drop_first(), c.drop_first());
        }
    }
}

/// Path order is transitive: a path before a second one that comes before a third also comes
/// before the third.
pub proof fn lemma_path_order_trans(a: Seq<char>, b: Seq<char>, c: Seq<char>)
    requires
        path_order(a, b) == -1,
        path_order(b, c) == -1,
    ensures
        path_order(a, c) == -1,
{
    lemma_order_of_components_trans(path_components(a), path_components(b), path_components(c));
}

/// A path component.
enum Component {
    RootDir,
    CurDir,
    ParentDir,
    Normal(Vec<char>),
}

impl View for Component {
    type V = PathComponent;

    closed spec fn view(&self) -> PathComponent {
        match self {
            Component::RootDir => PathComponent::RootDir,
            Component::CurDir => PathComponent::CurDir,
            Component::ParentDir => PathComponent::ParentDir,
            Component::Normal(v) => PathComponent::Normal(v@),
        }
    }
}

spec fn component_views(v: Seq<Component>) -> Seq<PathComponent> {
    v.map_values(|c: Component| c@)
}

fn find_sep(t: &Vec<char>, i: usize) -> (r: usize)
    requires
        i <= t.len(),
    ensures
        r == next_sep(t@, i as int),
{
    let mut k = i;
    while k < t.len() && t[k] != '/'
        invariant
            i <= k <= t.len(),
            next_sep(t@, i as int) == next_sep(t@, k as int),
        decreases t.len() - k,
    {
        k += 1;
    }
    k
}

fn components_of(t: &Vec<char>) -> (r: Vec<Component>)
    ensures
        component_views(r@) == path_components(t@),
{
    let mut out: Vec<Component> = Vec::new();
    let mut i: usize = 0;
    if t.len() > 0 && t[0] == '/' {
        out.push(Component::RootDir);
        i = 1;
    } else if t.len() > 0 && t[0] == '.' && (t.len() == 1 || t[1] == '/') {
        out.push(Component::CurDir);
        i = 1;
    }
    assert(path_components(t@) == component_views(out@) + pieces_from(t@, i as int));
    loop
        invariant
            i <= t.len(),
            path_components(t@) == component_views(out@) + pieces_from(t@, i as int),
        decreases t.len() - i,
    {
        proof {
            lemma_next_sep(t@, i as int);
        }
        let q = find_sep(t, i);
        let piece = chars_of_range(t, i, q);
        let ghost before = component_views(out@);
        let ghost rest = if q < t.len() {
            pieces_from(t@, q + 1)
        } else {
            Seq::<PathComponent>::empty()
        };
        if piece.len() == 0 || (piece.len() == 1 && piece[0] == '.') {
            assert(piece@.len() == 0 || piece@ =~= seq!['.']);
            assert(pieces_from(t@, i as int) == rest);
        } else if piece.len() == 2 && piece[0] == '.' && piece[1] == '.' {
            assert(piece@ =~= seq!['.', '.']);
            out.push(Component::ParentDir);
            assert(component_views(out@) =~= before.push(PathComponent::ParentDir));
            assert(pieces_from(t@, i as int) == seq![PathComponent::ParentDir] + rest);
        } else {
            assert(piece@ != seq!['.']) by {
                if piece@ == seq!['.'] {
                    assert(piece@.len() == 1 && piece@[0] == '.');
                }
            }
            assert(piece@ != seq!['.', '.']) by {
                if piece@ == seq!['.', '.'] {
                    assert(piece@.len() == 2 && piece@[0] == '.' && piece@[1] == '.');
                }
            }
            let ghost pv = piece@;
            out.push(Component::Normal(piece));
            assert(component_views(out@) =~= before.push(PathComponent::Normal(pv)));
            assert(pieces_from(t@, i as int) == seq![PathComponent::Normal(pv)] + rest);
        }
        assert(before + pieces_from(t@, i as int) =~= component_views(out@) + rest);
        if q < t.len() {
            i = q + 1;
        } else {
            assert(component_views(out@) + rest =~= component_views(out@));
            return out;
        }
    }
}

fn order_chars(a: &Vec<char>, b: &Vec<char>) -> (r: i8)
    ensures
        r == order_of_chars(a@, b@),
{
    let mut k: usize = 0;
    assert(a@.skip(0) =~= a@ && b@.skip(0) =~= b@);
    while k < a.len() && k < b.len() && a[k] == b[k]
        invariant
            k <= a.len(),
            k <= b.len(),
            order_of_chars(a@, b@) == order_of_chars(a@.skip(k as int), b@.skip(k as int)),
        decreases a.len() - k,
    {
        assert(a@.skip(k as int).drop_first() =~= a@.skip(k + 1));
        assert(b@.skip(k as int).drop_first() =~= b@.skip(k + 1));
        k += 1;
    }
    assert(k < a.len() ==> a@.skip(k as int)[0] == a@[k as int]);
    assert(k < b.len() ==> b@.skip(k as int)[0] == b@[k as int]);
    if k == a.len() {
        if k == b.len() {
            0
        } else {
            -1
        }
    } else if k == b.len() {
        1
    } else if a[k] < b[k] {
        -1
    } else {
        1
    }
}

fn order_component(a: &Component, b: &Component) -> (r: i8)
    ensures
        r == order_of_component(a@, b@),
{
    match (a, b) {
        (Component::Normal(x), Component::Normal(y)) => order_chars(x, y),
        _ => {
            let ra: u8 = match a {
                Component::RootDir => 0,
                Component::CurDir => 1,
                Component::ParentDir => 2,
                Component::Normal(_) => 3,
            };
            let rb: u8 = match b {
                Component::RootDir => 0,
                Component::CurDir => 1,
                Component::ParentDir => 2,
                Component::Normal(_) => 3,
            };
            if ra < rb {
                -1
            } else if ra > rb {
                1
            } else {
                0
            }
        },
    }
}

fn order_components(a: &Vec<Component>, b: &Vec<Component>) -> (r: i8)
    ensures
        r == order_of_components(component_views(a@), component_views(b@)),
{
    let ghost av = component_views(a@);
    let ghost bv = component_views(b@);
    let mut k: usize = 0;
    assert(av.skip(0) =~= av && bv.skip(0) =~= bv);
    while k < a.len() && k < b.len()
        invariant
            k <= a.len(),
            k <= b.len(),
            av == component_views(a@),
            bv == component_views(b@),
            order_of_components(av, bv) == order_of_components(av.skip(k as int), bv.skip(k as int)),
        decreases a.len() - k,
    {
        let c = order_component(&a[k], &b[k]);
        assert(av.skip(k as int)[0] == a@[k as int]@);
        assert(bv.skip(k as int)[0] == b@[k as int]@);
        if c != 0 {
            return c;
        }
        assert(av.skip(k as int).drop_first() =~= av.skip(k + 1));
        assert(bv.skip(k as int).drop_first() =~= bv.skip(k + 1));
        k += 1;
    }
    if k == a.len() {
        if k == b.len() {
            0
        } else {
            -1
        }
    } else {
        1
    }
}

/// Compare two paths component by component, as `Path` does: -1, 0 or 1 for less, equal and
/// greater; see [`path_order`].
pub fn compare_paths(a: &str, b: &str) -> (r: i8)
    ensures
        r == path_order(a@, b@),
{
    let ca = components_of(&chars_of(a));
    let cb = components_of(&chars_of(b));
    order_components(&ca, &cb)
}

/// The directory `cwd` as the start of the paths under it: followed by one separator.
pub open spec fn dir_prefix(cwd: Seq<char>) -> Seq<char> {
    if cwd.len() > 0 && cwd.last() == '/' {
        cwd
    } else {
        cwd.push('/')
    }
}

/// `path` relative to the directory `cwd`: what follows `cwd` and a separator when `path` lies
/// under `cwd`; otherwise (and when `cwd` is empty) `path` as it is.
pub open spec fn relative_to(path: Seq<char>, cwd: Seq<char>) -> Seq<char> {
    if cwd.len() > 0 && starts_with_at(path, 0, dir_prefix(cwd)) {
        path.subrange(dir_prefix(cwd).len() as int, path.len() as int)
    } else {
        path
    }
}

/// `path` relative to the directory `cwd`; see [`relative_to`].
pub fn relative_path_to(path: &str, cwd: &str) -> (r: String)
    ensures
        r@ == relative_to(path@, cwd@),
{
    let p = chars_of(path);
    let mut prefix = String::new();
    push_str(&mut prefix, cwd);
    let c = chars_of(cwd);
    if c.len() == 0 {
        return path.to_owned();
    }
    if c[c.len() - 1] != '/' {
        push_char(&mut prefix, '/');
    }
    let pre = chars_of(prefix.as_str());
    assert(pre@ == dir_prefix(cwd@));
    if lit_at(&p, 0, &pre) {
        string_of_range(&p, pre.len(), p.len())
    } else {
        path.to_owned()
    }
}

/// The ordering that -1, 0 and 1 stand for.
pub open spec fn ordering_of(c: int) -> Ordering {
    if c < 0 {
        Ordering::Less
    } else if c == 0 {
        Ordering::Equal
    } else {
        Ordering::Greater
    }
}

/// The ordering that -1, 0 and 1 stand for.
pub fn ordering_from(c: i8) -> (r: Ordering)
    ensures
        c < 0 ==> r == Ordering::Less,
        c == 0 ==> r == Ordering::Equal,
        c > 0 ==> r == Ordering::Greater,
{
    if c < 0 {
        Ordering::Less
    } else if c == 0 {
        Ordering::Equal
    } else {
        Ordering::Greater
    }
}

} // verus!

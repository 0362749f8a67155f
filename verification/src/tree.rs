//! The project file tree: nodes kept in display order (directories first,
//! then names compared case-insensitively), with incremental add, remove,
//! rename and lookup by slash-separated path.
use vstd::prelude::*;
use crate::text::{chars_of, push_char, push_chars, string_of};

verus! {

/// A node in the file tree.
#[derive(Debug, PartialEq, Eq)]
pub struct TreeNode {
    pub name: String,
    pub path: String,
    pub is_dir: bool,
    pub children: Vec<TreeNode>,
}

/// `a` and `b` hold the same names, paths and kinds at every level.
pub open spec fn deep_eq(a: TreeNode, b: TreeNode) -> bool
    decreases a,
{
    &&& a.name@ == b.name@
    &&& a.path@ == b.path@
    &&& a.is_dir == b.is_dir
    &&& a.children@.len() == b.children@.len()
    &&& forall|i: int|
        0 <= i < a.children@.len() ==> deep_eq(#[trigger] a.children@[i], b.children@[i])
}

impl Clone for TreeNode {
    /// A deep copy of the node and everything below it.
    fn clone(&self) -> (r: Self)
        ensures
            deep_eq(*self, r),
        decreases self,
    {
        let mut children: Vec<TreeNode> = Vec::new();
        let n = self.children.len();
        for i in 0..n
            invariant
                n == self.children@.len(),
                children@.len() == i,
            forall|j: int| 0 <= j < i ==> deep_eq(self.children@[j], #[trigger] children@[j]),
        {
            let c = self.children[i].clone();
            children.push(c);
        }
        let r = TreeNode { name: self.name.clone(), path: self.path.clone(), is_dir: self.is_dir, children };
        assert forall|i: int| 0 <= i < self.children@.len() implies deep_eq(#[trigger] self.children@[i], r.children@[i]) by {
            assert(deep_eq(self.children@[i], r.children@[i]));
        }
        r
    }
}

// ---------------------------------------------------------------------
// Lower-casing of names (std `str::to_lowercase`).
// ---------------------------------------------------------------------

/// What `str::to_lowercase` returns for a string with these characters.
pub uninterp spec fn lowercase(s: Seq<char>) -> Seq<char>;

/// `str::to_lowercase`: the Unicode lower-case mapping of `s`.  Its result
/// depends on the characters of `s` alone; the mapping itself is not
/// written out here.
#[verifier::external_body]
fn to_lower(s: &str) -> (r: String)
    ensures
        r@ == lowercase(s@),
{
    s.to_lowercase()
}

// ---------------------------------------------------------------------
// Path splitting.
// ---------------------------------------------------------------------

/// `cur` as a finished path component: nothing when it is empty.
pub open spec fn flush(cur: Seq<char>) -> Seq<Seq<char>> {
    if cur.len() > 0 {
        seq![cur]
    } else {
        seq![]
    }
}

/// The non-empty `/`-separated components of `s`, the component being
/// built so far being `cur`.
pub open spec fn parts_from(s: Seq<char>, cur: Seq<char>) -> Seq<Seq<char>>
    decreases s.len(),
{
    if s.len() == 0 {
        flush(cur)
    } else if s[0] == '/' {
        flush(cur) + parts_from(s.drop_first(), seq![])
    } else {
        parts_from(s.drop_first(), cur.push(s[0]))
    }
}

/// The non-empty components of a slash-separated path
/// (`split('/')` with the empty pieces dropped).
pub open spec fn path_parts(s: Seq<char>) -> Seq<Seq<char>> {
    parts_from(s, seq![])
}

/// The character views of a sequence of strings.
pub open spec fn views(v: Seq<String>) -> Seq<Seq<char>> {
    v.map_values(|x: String| x@)
}

/// The components `ps` joined with `/`.
pub open spec fn join_parts(ps: Seq<Seq<char>>) -> Seq<char>
    decreases ps.len(),
{
    if ps.len() == 0 {
        seq![]
    } else if ps.len() == 1 {
        ps[0]
    } else {
        join_parts(ps.drop_last()) + seq!['/'] + ps.last()
    }
}

/// `q` is a non-empty prefix of `ps`.
pub open spec fn is_nonempty_prefix(q: Seq<Seq<char>>, ps: Seq<Seq<char>>) -> bool {
    1 <= q.len() <= ps.len() && ps.take(q.len() as int) == q
}

/// `p` is a prefix of `q` (possibly all of it).
pub open spec fn is_prefix(p: Seq<Seq<char>>, q: Seq<Seq<char>>) -> bool {
    p.len() <= q.len() && q.take(p.len() as int) == p
}

// ---------------------------------------------------------------------
// Display order.
// ---------------------------------------------------------------------

/// Strict lexicographic order of character sequences by code point (the
/// order of `String`'s `Ord`).
pub open spec fn chars_lt(a: Seq<char>, b: Seq<char>) -> bool
    decreases a.len(),
{
    if a.len() == 0 {
        b.len() > 0
    } else if b.len() == 0 {
        false
    } else if a[0] != b[0] {
        (a[0] as int) < (b[0] as int)
    } else {
        chars_lt(a.drop_first(), b.drop_first())
    }
}

/// The sort key `(!is_dir, lowercase(name))` of `x` is strictly below that
/// of `y`: directories come first, then names ignoring case.
pub open spec fn key_lt(x: TreeNode, y: TreeNode) -> bool {
    (x.is_dir && !y.is_dir) || (x.is_dir == y.is_dir && chars_lt(
        lowercase(x.name@),
        lowercase(y.name@),
    ))
}

/// Siblings are in display order.
pub open spec fn sorted(cs: Seq<TreeNode>) -> bool {
    forall|i: int, j: int| 0 <= i < j < cs.len() ==> !key_lt(#[trigger] cs[j], #[trigger] cs[i])
}

/// No two siblings share a name.
pub open spec fn unique_names(cs: Seq<TreeNode>) -> bool {
    forall|i: int, j: int|
        0 <= i < cs.len() && 0 <= j < cs.len() && i != j ==> #[trigger] cs[i].name@
            != #[trigger] cs[j].name@
}

/// Every level of the tree is in display order and free of duplicate names.
pub open spec fn well_formed(t: TreeNode) -> bool
    decreases t,
{
    &&& sorted(t.children@)
    &&& unique_names(t.children@)
    &&& forall|i: int| 0 <= i < t.children@.len() ==> well_formed(#[trigger] t.children@[i])
}

/// The `i`-th child of `t` is well formed.
pub open spec fn well_formed_at(t: TreeNode, i: int) -> bool {
    0 <= i < t.children@.len() ==> well_formed(t.children@[i])
}

// ---------------------------------------------------------------------
// Lookup by name and by path.
// ---------------------------------------------------------------------

/// Index of the first of `cs[k..]` named `name`.
pub open spec fn first_named(cs: Seq<TreeNode>, name: Seq<char>, k: int) -> Option<int>
    decreases cs.len() - k,
{
    if k < 0 || k >= cs.len() {
        None
    } else if cs[k].name@ == name {
        Some(k)
    } else {
        first_named(cs, name, k + 1)
    }
}

/// The first child in `cs` named `name`.
pub open spec fn child_named(cs: Seq<TreeNode>, name: Seq<char>) -> Option<TreeNode> {
    match first_named(cs, name, 0) {
        Some(i) => Some(cs[i]),
        None => None,
    }
}

/// The node reached from `t` by following the components `q`, taking at
/// each level the first child with the component's name.
pub open spec fn find_spec(t: TreeNode, q: Seq<Seq<char>>) -> Option<TreeNode>
    decreases q.len(),
{
    if q.len() == 0 {
        Some(t)
    } else {
        match child_named(t.children@, q[0]) {
            Some(c) => find_spec(c, q.drop_first()),
            None => None,
        }
    }
}

/// The path `q` leads to a node of `t`.
pub open spec fn has_path(t: TreeNode, q: Seq<Seq<char>>) -> bool {
    find_spec(t, q) is Some
}

/// A node with no children.
pub open spec fn leaf_node(name: Seq<char>, path: Seq<char>, is_dir: bool, n: TreeNode) -> bool {
    n.name@ == name && n.path@ == path && n.is_dir == is_dir && n.children@.len() == 0
}

// ---------------------------------------------------------------------
// Lemmas.
// ---------------------------------------------------------------------

proof fn lemma_first_named_char(cs: Seq<TreeNode>, name: Seq<char>, k: int)
    requires
        0 <= k,
    ensures
        match first_named(cs, name, k) {
            Some(i) => k <= i < cs.len() && cs[i].name@ == name && forall|j: int|
                k <= j < i ==> #[trigger] cs[j].name@ != name,
            None => forall|j: int| k <= j < cs.len() ==> #[trigger] cs[j].name@ != name,
        },
    decreases cs.len() - k,
{
    if k < cs.len() && cs[k].name@ != name {
        lemma_first_named_char(cs, name, k + 1);
    }
}

/// The first index named `name` is the one that the characterisation
/// picks out.
proof fn lemma_first_named_is(cs: Seq<TreeNode>, name: Seq<char>, i: int)
    requires
        0 <= i < cs.len(),
        cs[i].name@ == name,
        forall|j: int| 0 <= j < i ==> #[trigger] cs[j].name@ != name,
    ensures
        first_named(cs, name, 0) == Some(i),
{
    lemma_first_named_char(cs, name, 0);
    match first_named(cs, name, 0) {
        Some(i2) => {
            if i2 < i {
                assert(cs[i2].name@ != name);
            }
            if i < i2 {
                assert(cs[i].name@ != name);
            }
        },
        None => {
            assert(cs[i].name@ != name);
        },
    }
}

proof fn lemma_first_named_none(cs: Seq<TreeNode>, name: Seq<char>)
    requires
        forall|j: int| 0 <= j < cs.len() ==> #[trigger] cs[j].name@ != name,
    ensures
        first_named(cs, name, 0) is None,
{
    lemma_first_named_char(cs, name, 0);
    if let Some(i) = first_named(cs, name, 0) {
        assert(cs[i].name@ != name);
    }
}

/// Replacing a child by one with the same name keeps every name lookup,
/// and the replaced child is found under its name when it was the first.
proof fn lemma_child_named_update(cs: Seq<TreeNode>, i: int, x: TreeNode, name: Seq<char>)
    requires
        0 <= i < cs.len(),
        x.name@ == cs[i].name@,
    ensures
        first_named(cs.update(i, x), name, 0) == first_named(cs, name, 0),
        child_named(cs.update(i, x), name) == if first_named(cs, name, 0) == Some(i) {
            Some(x)
        } else {
            child_named(cs, name)
        },
{
    let ns = cs.update(i, x);
    lemma_first_named_char(cs, name, 0);
    match first_named(cs, name, 0) {
        Some(k) => {
            assert forall|j: int| 0 <= j < k implies #[trigger] ns[j].name@ != name by {
                assert(cs[j].name@ != name);
            }
            lemma_first_named_is(ns, name, k);
        },
        None => {
            assert forall|j: int| 0 <= j < ns.len() implies #[trigger] ns[j].name@ != name by {
                assert(cs[j].name@ != name);
            }
            lemma_first_named_none(ns, name);
        },
    }
}

/// Inserting a child whose name no sibling has: lookups of other names
/// find the same node, and the new name finds the new child.
proof fn lemma_child_named_insert(cs: Seq<TreeNode>, p: int, x: TreeNode, name: Seq<char>)
    requires
        0 <= p <= cs.len(),
        forall|j: int| 0 <= j < cs.len() ==> #[trigger] cs[j].name@ != x.name@,
    ensures
        child_named(cs.insert(p, x), name) == if name == x.name@ {
            Some(x)
        } else {
            child_named(cs, name)
        },
{
    let ns = cs.insert(p, x);
    if name == x.name@ {
        assert forall|j: int| 0 <= j < p implies #[trigger] ns[j].name@ != name by {
            assert(ns[j] == cs[j]);
        }
        lemma_first_named_is(ns, name, p);
    } else {
        lemma_first_named_char(cs, name, 0);
        match first_named(cs, name, 0) {
            Some(k) => {
                let nk = if k < p {
                    k
                } else {
                    k + 1
                };
                assert(ns[nk] == cs[k]);
                assert forall|j: int| 0 <= j < nk implies #[trigger] ns[j].name@ != name by {
                    if j < p {
                        assert(ns[j] == cs[j]);
                    } else if j > p {
                        assert(ns[j] == cs[j - 1]);
                    }
                }
                lemma_first_named_is(ns, name, nk);
            },
            None => {
                assert forall|j: int| 0 <= j < ns.len() implies #[trigger] ns[j].name@ != name by {
                    if j < p {
                        assert(ns[j] == cs[j]);
                    } else if j > p {
                        assert(ns[j] == cs[j - 1]);
                    }
                }
                lemma_first_named_none(ns, name);
            },
        }
    }
}

proof fn lemma_chars_lt_irrefl(a: Seq<char>)
    ensures
        !chars_lt(a, a),
    decreases a.len(),
{
    if a.len() > 0 {
        lemma_chars_lt_irrefl(a.drop_first());
    }
}

proof fn lemma_chars_lt_trans(a: Seq<char>, b: Seq<char>, c: Seq<char>)
    requires
        chars_lt(a, b),
        chars_lt(b, c),
    ensures
        chars_lt(a, c),
    decreases a.len(),
{
    if a.len() > 0 && b.len() > 0 && c.len() > 0 {
        if a[0] == b[0] && b[0] == c[0] {
            lemma_chars_lt_trans(a.drop_first(), b.drop_first(), c.drop_first());
        }
    }
}

proof fn lemma_chars_lt_total(a: Seq<char>, b: Seq<char>)
    ensures
        chars_lt(a, b) || chars_lt(b, a) || a == b,
    decreases a.len(),
{
    if a.len() > 0 && b.len() > 0 {
        if a[0] == b[0] {
            lemma_chars_lt_total(a.drop_first(), b.drop_first());
            if a.drop_first() == b.drop_first() {
                assert(a == seq![a[0]] + a.drop_first());
                assert(b == seq![b[0]] + b.drop_first());
            }
        }
    } else if a.len() == 0 && b.len() == 0 {
        assert(a == b);
    }
}

proof fn lemma_key_lt_trans(x: TreeNode, y: TreeNode, z: TreeNode)
    requires
        key_lt(x, y),
        key_lt(y, z),
    ensures
        key_lt(x, z),
{
    if x.is_dir == y.is_dir && y.is_dir == z.is_dir {
        lemma_chars_lt_trans(lowercase(x.name@), lowercase(y.name@), lowercase(z.name@));
    }
}

proof fn lemma_key_lt_asym(x: TreeNode, y: TreeNode)
    requires
        key_lt(x, y),
    ensures
        !key_lt(y, x),
{
    if x.is_dir == y.is_dir && key_lt(y, x) {
        lemma_chars_lt_trans(lowercase(x.name@), lowercase(y.name@), lowercase(x.name@));
        lemma_chars_lt_irrefl(lowercase(x.name@));
    }
}


proof fn lemma_prefix_step(q: Seq<Seq<char>>, ps: Seq<Seq<char>>)
    requires
        q.len() >= 1,
        ps.len() >= 1,
    ensures
        is_nonempty_prefix(q, ps) <==> (q[0] == ps[0] && (q.len() == 1 || is_nonempty_prefix(
            q.drop_first(),
            ps.drop_first(),
        ))),
        is_prefix(ps, q) <==> (q[0] == ps[0] && is_prefix(ps.drop_first(), q.drop_first())),
{
    if is_nonempty_prefix(q, ps) {
        assert(q[0] == ps.take(q.len() as int)[0]);
        if q.len() > 1 {
            assert(ps.drop_first().take(q.len() - 1) == q.drop_first());
        }
    }
    if q[0] == ps[0] && q.len() == 1 && 1 <= ps.len() {
        assert(ps.take(1) == q);
    }
    if q[0] == ps[0] && q.len() > 1 && is_nonempty_prefix(q.drop_first(), ps.drop_first()) {
        assert forall|k: int| 0 <= k < q.len() implies #[trigger] ps.take(q.len() as int)[k] == q[k] by {
            if k > 0 {
                assert(q[k] == q.drop_first()[k - 1]);
                assert(ps.drop_first().take(q.len() - 1)[k - 1] == ps[k]);
            }
        }
        assert(ps.take(q.len() as int) =~= q);
    }
    if is_prefix(ps, q) {
        assert(ps[0] == q.take(ps.len() as int)[0]);
        assert(q.drop_first().take(ps.len() - 1) == ps.drop_first());
    }
    if q[0] == ps[0] && is_prefix(ps.drop_first(), q.drop_first()) {
        assert forall|k: int| 0 <= k < ps.len() implies #[trigger] q.take(ps.len() as int)[k] == ps[k] by {
            if k > 0 {
                assert(ps[k] == ps.drop_first()[k - 1]);
                assert(q.drop_first().take(ps.len() - 1)[k - 1] == q[k]);
            }
        }
        assert(q.take(ps.len() as int) =~= ps);
    }
}

/// The set of paths of a tree is closed under taking prefixes.
proof fn lemma_has_path_prefix(t: TreeNode, p: Seq<Seq<char>>, q: Seq<Seq<char>>)
    requires
        has_path(t, q),
        is_prefix(p, q),
    ensures
        has_path(t, p),
    decreases p.len(),
{
    if p.len() > 0 {
        lemma_prefix_step(q, p);
        let c = child_named(t.children@, q[0])->0;
        lemma_has_path_prefix(c, p.drop_first(), q.drop_first());
    }
}

/// A node without children holds only the empty path.
proof fn lemma_leaf_paths(t: TreeNode, q: Seq<Seq<char>>)
    requires
        t.children@.len() == 0,
    ensures
        has_path(t, q) <==> q.len() == 0,
{
    if q.len() > 0 {
        assert(first_named(t.children@, q[0], 0) is None);
    }
}

/// Siblings without children are well formed.
proof fn lemma_leaf_well_formed(t: TreeNode)
    requires
        t.children@.len() == 0,
    ensures
        well_formed(t),
{
}

/// Under unique names, the child found under `n` is the child with name `n`.
proof fn lemma_child_named_unique(cs: Seq<TreeNode>, n: Seq<char>, x: TreeNode)
    requires
        unique_names(cs),
    ensures
        child_named(cs, n) == Some(x) <==> (cs.contains(x) && x.name@ == n),
{
    lemma_first_named_char(cs, n, 0);
    if cs.contains(x) && x.name@ == n {
        let j = choose|j: int| 0 <= j < cs.len() && cs[j] == x;
        match first_named(cs, n, 0) {
            Some(i) => {
                if i != j {
                    assert(cs[i].name@ != cs[j].name@);
                }
            },
            None => {
                assert(cs[j].name@ != n);
            },
        }
    }
}

/// Under unique names, no child named `n` means no lookup result.
proof fn lemma_child_named_none(cs: Seq<TreeNode>, n: Seq<char>)
    requires
        forall|j: int| 0 <= j < cs.len() ==> #[trigger] cs[j].name@ != n,
    ensures
        child_named(cs, n) is None,
{
    lemma_first_named_none(cs, n);
}

proof fn lemma_deep_eq_refl(t: TreeNode)
    ensures
        deep_eq(t, t),
    decreases t,
{
    assert forall|i: int| 0 <= i < t.children@.len() implies deep_eq(#[trigger] t.children@[i], t.children@[i]) by {
        lemma_deep_eq_refl(t.children@[i]);
    }
}

/// `cs` without the children named `name`, order kept.
pub open spec fn remove_named(cs: Seq<TreeNode>, name: Seq<char>) -> Seq<TreeNode>
    decreases cs.len(),
{
    if cs.len() == 0 {
        seq![]
    } else {
        let r = remove_named(cs.drop_last(), name);
        if cs.last().name@ == name {
            r
        } else {
            r.push(cs.last())
        }
    }
}

proof fn lemma_remove_named(cs: Seq<TreeNode>, name: Seq<char>)
    ensures
        forall|x: TreeNode| #[trigger] remove_named(cs, name).contains(x) <==> (cs.contains(x)
            && x.name@ != name),
        remove_named(cs, name).len() <= cs.len(),
        (forall|j: int| 0 <= j < cs.len() ==> #[trigger] cs[j].name@ != name) ==> remove_named(cs, name) == cs,
        remove_named(cs, name).len() == cs.len() <==> forall|j: int|
            0 <= j < cs.len() ==> #[trigger] cs[j].name@ != name,
        sorted(cs) ==> sorted(remove_named(cs, name)),
        unique_names(cs) ==> unique_names(remove_named(cs, name)),
    decreases cs.len(),
{
    if cs.len() > 0 {
        let d = cs.drop_last();
        let r = remove_named(d, name);
        lemma_remove_named(d, name);
        assert(cs == d.push(cs.last()));
        assert forall|x: TreeNode| #[trigger] remove_named(cs, name).contains(x) <==> (cs.contains(x)
            && x.name@ != name) by {
            if cs.contains(x) && x.name@ != name {
                let j = choose|j: int| 0 <= j < cs.len() && cs[j] == x;
                if j < cs.len() - 1 {
                    assert(d[j] == x);
                    assert(r.contains(x));
                    if cs.last().name@ != name {
                        let k = choose|k: int| 0 <= k < r.len() && r[k] == x;
                        assert(r.push(cs.last())[k] == x);
                    }
                } else {
                    assert(r.push(cs.last())[r.len() as int] == x);
                }
            }
            if remove_named(cs, name).contains(x) {
                let k = choose|k: int| 0 <= k < remove_named(cs, name).len() && remove_named(cs, name)[k] == x;
                if k < r.len() {
                    assert(r[k] == x);
                    assert(r.contains(x));
                    let j = choose|j: int| 0 <= j < d.len() && d[j] == x;
                    assert(cs[j] == x);
                } else {
                    assert(cs[cs.len() - 1] == x);
                }
            }
        }
        if forall|j: int| 0 <= j < cs.len() ==> #[trigger] cs[j].name@ != name {
            assert forall|j: int| 0 <= j < d.len() implies #[trigger] d[j].name@ != name by {
                assert(d[j] == cs[j]);
            }
            assert(cs[cs.len() - 1].name@ != name);
        } else {
            let j = choose|j: int| 0 <= j < cs.len() && #[trigger] cs[j].name@ == name;
            if j < cs.len() - 1 {
                assert(d[j] == cs[j]);
            }
        }
        if sorted(cs) {
            assert forall|a: int, b: int| 0 <= a < b < d.len() implies !key_lt(#[trigger] d[b], #[trigger] d[a]) by {
                assert(d[a] == cs[a] && d[b] == cs[b]);
            }
            if cs.last().name@ != name {
                let rr = r.push(cs.last());
                assert forall|a: int, b: int| 0 <= a < b < rr.len() implies !key_lt(#[trigger] rr[b], #[trigger] rr[a]) by {
                    if b == r.len() {
                        assert(r.contains(r[a]));
                        let j = choose|j: int| 0 <= j < d.len() && d[j] == r[a];
                        assert(cs[j] == r[a]);
                        assert(!key_lt(cs[cs.len() - 1], cs[j]));
                    } else {
                        assert(rr[a] == r[a] && rr[b] == r[b]);
                    }
                }
            }
        }
        if unique_names(cs) {
            assert forall|a: int, b: int| 0 <= a < d.len() && 0 <= b < d.len() && a != b implies #[trigger] d[a].name@ != #[trigger] d[b].name@ by {
                assert(d[a] == cs[a] && d[b] == cs[b]);
            }
            if cs.last().name@ != name {
                let rr = r.push(cs.last());
                assert forall|a: int, b: int| 0 <= a < rr.len() && 0 <= b < rr.len() && a != b implies #[trigger] rr[a].name@ != #[trigger] rr[b].name@ by {
                    if a == r.len() || b == r.len() {
                        let o = if a == r.len() { b } else { a };
                        assert(rr[o] == r[o]);
                        assert(r.contains(r[o]));
                        let j = choose|j: int| 0 <= j < d.len() && d[j] == r[o];
                        assert(cs[j] == r[o]);
                        assert(cs[j].name@ != cs[cs.len() - 1].name@);
                    } else {
                        assert(rr[a] == r[a] && rr[b] == r[b]);
                    }
                }
            }
        }
    }
}

// ---------------------------------------------------------------------
// Executable operations.
// ---------------------------------------------------------------------

impl TreeNode {
    /// A file node.
    pub fn file(name: &str, path: &str) -> (r: Self)
        ensures
            leaf_node(name@, path@, false, r),
    {
        TreeNode { name: name.to_owned(), path: path.to_owned(), is_dir: false, children: Vec::new() }
    }

    /// A directory node without children.
    pub fn dir(name: &str, path: &str) -> (r: Self)
        ensures
            leaf_node(name@, path@, true, r),
    {
        TreeNode { name: name.to_owned(), path: path.to_owned(), is_dir: true, children: Vec::new() }
    }

    /// The sort key: `(!is_dir, name in lower case)`.
    fn sort_key(&self) -> (r: (bool, String))
        ensures
            r.0 == !self.is_dir,
            r.1@ == lowercase(self.name@),
    {
        (!self.is_dir, to_lower(self.name.as_str()))
    }
}

/// `a` is strictly below `b` in code-point lexicographic order.
fn chars_less(a: &[char], b: &[char]) -> (r: bool)
    ensures
        r == chars_lt(a@, b@),
{
    let mut i: usize = 0;
    assert(a@.skip(0) == a@ && b@.skip(0) == b@);
    while i < a.len() && i < b.len()
        invariant
            i <= a@.len(),
            i <= b@.len(),
            chars_lt(a@, b@) == chars_lt(a@.skip(i as int), b@.skip(i as int)),
        decreases a@.len() - i,
    {
        if a[i] != b[i] {
            return a[i] < b[i];
        }
        assert(a@.skip(i as int).drop_first() == a@.skip(i + 1));
        assert(b@.skip(i as int).drop_first() == b@.skip(i + 1));
        i = i + 1;
    }
    i < b.len()
}

/// `x` sorts strictly before `y`.
fn key_less(x: &TreeNode, y: &TreeNode) -> (r: bool)
    ensures
        r == key_lt(*x, *y),
{
    let kx = x.sort_key();
    let ky = y.sort_key();
    if kx.0 != ky.0 {
        return !kx.0 && ky.0;
    }
    let cx = chars_of(kx.1.as_str());
    let cy = chars_of(ky.1.as_str());
    chars_less(cx.as_slice(), cy.as_slice())
}

/// The two nodes have the same sort key: the same kind and the same name
/// ignoring case.
pub open spec fn same_key(a: TreeNode, b: TreeNode) -> bool {
    a.is_dir == b.is_dir && lowercase(a.name@) == lowercase(b.name@)
}

/// The nodes with the same sort key as `x`.
pub open spec fn keyed_as(x: TreeNode) -> spec_fn(TreeNode) -> bool {
    |y: TreeNode| same_key(y, x)
}

/// Index of the first of `o[k..]` that sorts after `x`, or `o.len()`.
pub open spec fn first_after(o: Seq<TreeNode>, x: TreeNode, k: int) -> int
    decreases o.len() - k,
{
    if k < 0 || k >= o.len() {
        o.len() as int
    } else if key_lt(x, o[k]) {
        k
    } else {
        first_after(o, x, k + 1)
    }
}

/// `s` in display order, by insertion: each element in turn goes before
/// the first placed element that sorts after it, so that elements with
/// equal keys keep their order.
pub open spec fn sort_spec(s: Seq<TreeNode>) -> Seq<TreeNode>
    decreases s.len(),
{
    if s.len() == 0 {
        s
    } else {
        let o = sort_spec(s.drop_last());
        o.insert(first_after(o, s.last(), 0), s.last())
    }
}

/// `after` is `before` sorted at every level: the same name, path and
/// kind, and the children of `before` in `sort_spec` order, each sorted in
/// turn.
pub open spec fn sorted_as(before: TreeNode, after: TreeNode) -> bool
    decreases after,
{
    &&& same_node_fields(before, after)
    &&& after.children@.len() == before.children@.len()
    &&& forall|k: int|
        0 <= k < after.children@.len() ==> sorted_as(sort_spec(before.children@)[k], #[trigger] after.children@[k])
}

proof fn lemma_key_total(a: TreeNode, b: TreeNode)
    ensures
        key_lt(a, b) || key_lt(b, a) || same_key(a, b),
{
    lemma_chars_lt_total(lowercase(a.name@), lowercase(b.name@));
}

proof fn lemma_key_lt_not_same(a: TreeNode, b: TreeNode)
    requires
        key_lt(a, b),
    ensures
        !same_key(a, b),
{
    lemma_chars_lt_irrefl(lowercase(a.name@));
}

proof fn lemma_first_after(o: Seq<TreeNode>, x: TreeNode, k: int)
    requires
        0 <= k <= o.len(),
    ensures
        k <= first_after(o, x, k) <= o.len(),
        forall|j: int| k <= j < first_after(o, x, k) ==> !key_lt(x, #[trigger] o[j]),
        first_after(o, x, k) < o.len() ==> key_lt(x, o[first_after(o, x, k)]),
    decreases o.len() - k,
{
    if k < o.len() && !key_lt(x, o[k]) {
        lemma_first_after(o, x, k + 1);
    }
}

proof fn lemma_first_after_from(o: Seq<TreeNode>, x: TreeNode, k: int)
    requires
        0 <= k <= o.len(),
        forall|j: int| 0 <= j < k ==> !key_lt(x, #[trigger] o[j]),
    ensures
        first_after(o, x, 0) == first_after(o, x, k),
    decreases k,
{
    if k > 0 {
        lemma_first_after_from(o, x, k - 1);
    }
}

/// In sorted `o`, every element from the insertion point of `x` on sorts
/// after `x`, and inserting `x` there keeps `o` sorted.
proof fn lemma_insert_at_first_after(o: Seq<TreeNode>, x: TreeNode)
    requires
        sorted(o),
    ensures
        forall|j: int| first_after(o, x, 0) <= j < o.len() ==> key_lt(x, #[trigger] o[j]),
        sorted(o.insert(first_after(o, x, 0), x)),
{
    lemma_first_after(o, x, 0);
    let p = first_after(o, x, 0);
    assert forall|j: int| p <= j < o.len() implies key_lt(x, #[trigger] o[j]) by {
        if j > p {
            assert(!key_lt(o[j], o[p]));
            lemma_key_total(o[p], o[j]);
            if key_lt(o[p], o[j]) {
                lemma_key_lt_trans(x, o[p], o[j]);
            }
        }
    }
    let ns = o.insert(p, x);
    assert forall|i: int, j: int| 0 <= i < j < ns.len() implies !key_lt(#[trigger] ns[j], #[trigger] ns[i]) by {
        if j < p {
            assert(ns[i] == o[i] && ns[j] == o[j]);
        } else if j == p {
            assert(ns[i] == o[i]);
        } else if i == p {
            assert(ns[j] == o[j - 1]);
            lemma_key_lt_asym(x, o[j - 1]);
        } else if i < p {
            assert(ns[i] == o[i] && ns[j] == o[j - 1]);
        } else {
            assert(ns[i] == o[i - 1] && ns[j] == o[j - 1]);
        }
    }
}

/// The sort keeps the length, sorts, and keeps every element as often as
/// it occurs.
proof fn lemma_sort_spec(s: Seq<TreeNode>)
    ensures
        sort_spec(s).len() == s.len(),
        sorted(sort_spec(s)),
        sort_spec(s).to_multiset() == s.to_multiset(),
    decreases s.len(),
{
    if s.len() > 0 {
        let o = sort_spec(s.drop_last());
        lemma_sort_spec(s.drop_last());
        lemma_first_after(o, s.last(), 0);
        lemma_insert_at_first_after(o, s.last());
        vstd::seq_lib::to_multiset_insert(o, first_after(o, s.last(), 0), s.last());
        vstd::seq_lib::to_multiset_build(s.drop_last(), s.last());
        assert(s.drop_last().push(s.last()) == s);
    } else {
        assert(s.to_multiset() =~= vstd::multiset::Multiset::empty()) by {
            broadcast use vstd::seq_lib::group_to_multiset_ensures;
        }
        assert(sort_spec(s) == s);
    }
}

/// Siblings already in display order are left as they are.
proof fn lemma_sort_spec_sorted(s: Seq<TreeNode>)
    requires
        sorted(s),
    ensures
        sort_spec(s) == s,
    decreases s.len(),
{
    if s.len() > 0 {
        let d = s.drop_last();
        assert(sorted(d));
        lemma_sort_spec_sorted(d);
        lemma_first_after(d, s.last(), 0);
        let p = first_after(d, s.last(), 0);
        if p < d.len() {
            assert(!key_lt(s[s.len() - 1], s[p]));
        }
        assert(d.insert(d.len() as int, s.last()) == s);
    }
}

proof fn lemma_filter_none(s: Seq<TreeNode>, f: spec_fn(TreeNode) -> bool)
    requires
        forall|i: int| 0 <= i < s.len() ==> !f(#[trigger] s[i]),
    ensures
        s.filter(f) == Seq::<TreeNode>::empty(),
    decreases s.len(),
{
    reveal(Seq::filter);
    if s.len() > 0 {
        lemma_filter_none(s.drop_last(), f);
    }
}

/// Sorting the siblings is a permutation of them: each node occurs as
/// often afterwards as before.
pub proof fn law_sort_permutes(s: Seq<TreeNode>)
    ensures
        sort_spec(s).len() == s.len(),
        sort_spec(s).to_multiset() == s.to_multiset(),
{
    lemma_sort_spec(s);
}

/// The sort is stable: the siblings with any one sort key come out in the
/// order they went in.
pub proof fn law_sort_stable(s: Seq<TreeNode>, x: TreeNode)
    ensures
        sort_spec(s).filter(keyed_as(x)) == s.filter(keyed_as(x)),
    decreases s.len(),
{
    let f = keyed_as(x);
    if s.len() == 0 {
        return;
    }
    let d = s.drop_last();
    let x0 = s.last();
    let o = sort_spec(d);
    law_sort_stable(d, x);
    lemma_sort_spec(d);
    lemma_first_after(o, x0, 0);
    lemma_insert_at_first_after(o, x0);
    let p = first_after(o, x0, 0);
    assert(s == d.push(x0));
    d.lemma_filter_push(x0, f);
    assert(o.insert(p, x0) == o.take(p) + seq![x0] + o.skip(p));
    assert(o == o.take(p) + o.skip(p));
    Seq::filter_distributes_over_add(o.take(p) + seq![x0], o.skip(p), f);
    Seq::filter_distributes_over_add(o.take(p), seq![x0], f);
    Seq::filter_distributes_over_add(o.take(p), o.skip(p), f);
    Seq::<TreeNode>::empty().lemma_filter_push(x0, f);
    assert(seq![x0] == Seq::<TreeNode>::empty().push(x0));
    lemma_filter_none(Seq::<TreeNode>::empty(), f);
    if f(x0) {
        assert forall|i: int| 0 <= i < o.skip(p).len() implies !f(#[trigger] o.skip(p)[i]) by {
            assert(o.skip(p)[i] == o[p + i]);
            assert(key_lt(x0, o[p + i]));
            lemma_key_lt_not_same(x0, o[p + i]);
        }
        lemma_filter_none(o.skip(p), f);
        assert(o.take(p).filter(f) + seq![x0] == o.take(p).filter(f).push(x0));
    }
}

/// Sorting what is already sorted at every level changes nothing: a second
/// sort leaves the tree as the first one left it.
pub proof fn law_sort_idempotent(before: TreeNode, after: TreeNode)
    requires
        deep_sorted(before),
        sorted_as(before, after),
    ensures
        deep_eq(before, after),
    decreases after,
{
    lemma_sort_spec_sorted(before.children@);
    assert forall|k: int| 0 <= k < before.children@.len() implies deep_eq(#[trigger] before.children@[k], after.children@[k]) by {
        assert(deep_sorted(before.children@[k]));
        assert(sorted_as(before.children@[k], after.children@[k]));
        law_sort_idempotent(before.children@[k], after.children@[k]);
    }
}

/// Inserts `node` among sorted siblings, after those that do not sort
/// after it.
fn insert_sorted(children: &mut Vec<TreeNode>, node: TreeNode)
    ensures
        exists|p: int|
            0 <= p <= old(children)@.len() && final(children)@ == old(children)@.insert(p, node),
        final(children)@ == old(children)@.insert(first_after(old(children)@, node, 0), node),
        sorted(old(children)@) ==> sorted(final(children)@),
{
    let mut pos: usize = 0;
    while pos < children.len() && !key_less(&node, &children[pos])
        invariant
            pos <= children@.len(),
            children@ == old(children)@,
            forall|j: int| 0 <= j < pos ==> !key_lt(node, #[trigger] children@[j]),
        decreases children@.len() - pos,
    {
        pos = pos + 1;
    }
    let ghost cs = children@;
    let ghost lt_at = pos < cs.len() ==> key_lt(node, cs[pos as int]);
    proof {
        lemma_first_after_from(cs, node, pos as int);
    }
    children.insert(pos, node);
    proof {
        let ns = children@;
        assert(ns == cs.insert(pos as int, node));
        if sorted(cs) {
            assert forall|i: int, j: int| 0 <= i < j < ns.len() implies !key_lt(#[trigger] ns[j], #[trigger] ns[i]) by {
                if j < pos {
                    assert(ns[i] == cs[i] && ns[j] == cs[j]);
                } else if j == pos {
                    assert(ns[i] == cs[i]);
                } else if i == pos {
                    assert(ns[j] == cs[j - 1]);
                    if key_lt(cs[j - 1], node) {
                        lemma_key_lt_trans(cs[j - 1], node, cs[pos as int]);
                        if j - 1 == pos {
                            lemma_key_lt_asym(cs[j - 1], cs[j - 1]);
                        }
                    }
                } else if i < pos {
                    assert(ns[i] == cs[i] && ns[j] == cs[j - 1]);
                } else {
                    assert(ns[i] == cs[i - 1] && ns[j] == cs[j - 1]);
                }
            }
        }
    }
}

/// Index of the first child named `name`.
fn find_child(children: &Vec<TreeNode>, name: &String) -> (r: Option<usize>)
    ensures
        match r {
            Some(i) => first_named(children@, name@, 0) == Some(i as int),
            None => first_named(children@, name@, 0) is None,
        },
{
    let n = children.len();
    for i in 0..n
        invariant
            n == children@.len(),
            forall|j: int| 0 <= j < i ==> #[trigger] children@[j].name@ != name@,
    {
        if children[i].name == *name {
            proof {
                lemma_first_named_is(children@, name@, i as int);
            }
            return Some(i);
        }
    }
    proof {
        lemma_first_named_none(children@, name@);
    }
    None
}

/// The non-empty components of a slash-separated path.
pub fn split_path(path: &str) -> (r: Vec<String>)
    ensures
        views(r@) == path_parts(path@),
{
    let cs = chars_of(path);
    let mut out: Vec<String> = Vec::new();
    let mut cur: Vec<char> = Vec::new();
    let n = cs.len();
    assert(cs@.skip(0) == cs@);
    assert(views(out@) == Seq::<Seq<char>>::empty());
    for i in 0..n
        invariant
            n == cs@.len(),
            cs@ == path@,
            views(out@) + parts_from(cs@.skip(i as int), cur@) == path_parts(path@),
    {
        assert(cs@.skip(i as int).drop_first() == cs@.skip(i + 1));
        assert(cs@.skip(i as int)[0] == cs@[i as int]);
        let c = cs[i];
        if c == '/' {
            if cur.len() > 0 {
                let s = string_of(cur.as_slice());
                let ghost before = views(out@);
                out.push(s);
                assert(views(out@) == before + seq![s@]);
            }
            cur = Vec::new();
        } else {
            cur.push(c);
        }
    }
    assert(cs@.skip(n as int).len() == 0);
    if cur.len() > 0 {
        let s = string_of(cur.as_slice());
        let ghost before = views(out@);
        out.push(s);
        assert(views(out@) == before + seq![s@]);
    }
    assert(views(out@) == views(out@) + Seq::<Seq<char>>::empty());
    out
}


/// `path` joined from its first `path_parts(path).len() - remaining_parts + 1`
/// components: the path of the intermediate directory created while
/// `remaining_parts` components are still to be placed.
fn build_path(full_path: &str, remaining_parts: usize) -> (r: String)
    requires
        1 <= remaining_parts <= path_parts(full_path@).len(),
    ensures
        r@ == join_parts(
            path_parts(full_path@).take(path_parts(full_path@).len() - remaining_parts + 1),
        ),
{
    let all_parts = split_path(full_path);
    let take = all_parts.len() - remaining_parts + 1;
    let ghost vs = views(all_parts@);
    let mut r = all_parts[0].clone();
    assert(vs.take(1) == seq![vs[0]]);
    for i in 1..take
        invariant
            take <= all_parts@.len(),
            vs == views(all_parts@),
            r@ == join_parts(vs.take(i as int)),
    {
        let ghost before = r@;
        push_char(&mut r, '/');
        let pc = chars_of(all_parts[i].as_str());
        push_chars(&mut r, pc.as_slice());
        assert(vs.take(i + 1).drop_last() == vs.take(i as int));
        assert(vs.take(i + 1).last() == all_parts@[i as int]@);
        assert(r@ == before + seq!['/'] + all_parts@[i as int]@);
    }
    r
}

/// The tree is `old` with its children replaced by `cs`.
pub open spec fn same_node_fields(a: TreeNode, b: TreeNode) -> bool {
    a.name@ == b.name@ && a.path@ == b.path@ && a.is_dir == b.is_dir
}

/// Keys of siblings depend on their names and kinds alone.
proof fn lemma_sorted_update(cs: Seq<TreeNode>, i: int, x: TreeNode)
    requires
        0 <= i < cs.len(),
        same_node_fields(cs[i], x),
    ensures
        sorted(cs) ==> sorted(cs.update(i, x)),
        unique_names(cs) ==> unique_names(cs.update(i, x)),
{
    let ns = cs.update(i, x);
    assert forall|a: int, b: int| 0 <= a < ns.len() && 0 <= b < ns.len() implies key_lt(#[trigger] ns[a], #[trigger] ns[b]) == key_lt(cs[a], cs[b]) && (ns[a].name@ == ns[b].name@) == (cs[a].name@ == cs[b].name@) by {}
}

/// `n` is the directory created for the first `k` of the components
/// `ps`: a directory named by the `k`-th component whose path joins the
/// first `k` components.
pub open spec fn created_dir(n: Option<TreeNode>, ps: Seq<Seq<char>>, k: int) -> bool {
    n matches Some(d) && d.is_dir && d.name@ == ps[k - 1] && d.path@ == join_parts(ps.take(k))
}

/// Adds the node for `parts[idx..]` below `parent`.
fn add_node_recursive(
    parent: &mut TreeNode,
    parts: &Vec<String>,
    idx: usize,
    full_path: &str,
    is_dir: bool,
) -> (r: bool)
    requires
        idx < parts@.len(),
        views(parts@) == path_parts(full_path@),
    ensures
        same_node_fields(*old(parent), *final(parent)),
        r == find_spec(*old(parent), views(parts@).skip(idx as int)) is None,
        !r ==> deep_eq(*old(parent), *final(parent)),
        r ==> (find_spec(*final(parent), views(parts@).skip(idx as int)) matches Some(n)
            && leaf_node(parts@.last()@, full_path@, is_dir, n)),
        forall|q: Seq<Seq<char>>| #[trigger]
            has_path(*final(parent), q) <==> (has_path(*old(parent), q) || is_nonempty_prefix(
                q,
                views(parts@).skip(idx as int),
            )),
        well_formed(*old(parent)) ==> well_formed(*final(parent)),
        forall|k: int| 1 <= k < parts@.len() - idx && !has_path(*old(parent), views(parts@).skip(idx as int).take(k))
            ==> created_dir(
            #[trigger] find_spec(*final(parent), views(parts@).skip(idx as int).take(k)),
            views(parts@),
            idx + k,
        ),
    decreases parts@.len() - idx,
{
    let ghost rest = views(parts@).skip(idx as int);
    let ghost cs = parent.children@;
    let ghost old_parent = *parent;
    let name = &parts[idx];
    let is_leaf = idx == parts.len() - 1;
    assert(rest[0] == name@);
    assert(rest.drop_first() == views(parts@).skip(idx + 1));
    proof {
        lemma_first_named_char(cs, name@, 0);
    }
    match find_child(&parent.children, name) {
        Some(i) => {
            if is_leaf {
                proof {
                    assert(find_spec(cs[i as int], rest.drop_first()) == Some(cs[i as int]));
                    assert forall|q: Seq<Seq<char>>| #[trigger] has_path(*parent, q) <==> (has_path(old_parent, q) || is_nonempty_prefix(q, rest)) by {
                        if is_nonempty_prefix(q, rest) {
                            lemma_prefix_step(q, rest);
                            assert(q == rest);
                        }
                    }
                    lemma_deep_eq_refl(*parent);
                }
                return false;
            }
            let ghost child_old = cs[i as int];
            let r = add_node_recursive(&mut parent.children[i], parts, idx + 1, full_path, is_dir);
            proof {
                let ns = parent.children@;
                let c2 = ns[i as int];
                assert(ns == cs.update(i as int, c2));
                lemma_child_named_update(cs, i as int, c2, name@);
                assert(child_named(ns, name@) == Some(c2));
                assert(child_named(cs, name@) == Some(child_old));
                assert forall|k: int| 1 <= k < parts@.len() - idx && !has_path(old_parent, rest.take(k))
                    implies created_dir(#[trigger] find_spec(*parent, rest.take(k)), views(parts@), idx + k) by {
                    let q = rest.take(k);
                    assert(q[0] == name@);
                    if k == 1 {
                        assert(q.drop_first().len() == 0);
                        assert(find_spec(old_parent, q) == find_spec(child_old, q.drop_first()));
                    } else {
                        assert(q.drop_first() == views(parts@).skip(idx + 1).take(k - 1));
                        assert(find_spec(old_parent, q) == find_spec(child_old, q.drop_first()));
                        assert(find_spec(*parent, q) == find_spec(c2, q.drop_first()));
                        assert(!has_path(child_old, views(parts@).skip(idx + 1).take(k - 1)));
                        assert(created_dir(find_spec(c2, views(parts@).skip(idx + 1).take(k - 1)), views(parts@), idx + 1 + (k - 1)));
                    }
                }
                assert forall|q: Seq<Seq<char>>| #[trigger] has_path(*parent, q) <==> (has_path(old_parent, q) || is_nonempty_prefix(q, rest)) by {
                    if q.len() > 0 {
                        lemma_prefix_step(q, rest);
                        lemma_first_named_char(cs, q[0], 0);
                        lemma_child_named_update(cs, i as int, c2, q[0]);
                        if q[0] == name@ {
                            assert(child_named(cs, q[0]) == Some(child_old));
                            assert(has_path(c2, q.drop_first()) <==> (has_path(child_old, q.drop_first()) || is_nonempty_prefix(q.drop_first(), rest.drop_first())));
                            if q.len() == 1 {
                                assert(q.drop_first().len() == 0);
                            }
                        } else {
                            assert(first_named(cs, q[0], 0) != Some(i as int));
                        }
                    }
                }
                if !r {
                    assert forall|k: int| 0 <= k < ns.len() implies deep_eq(#[trigger] old_parent.children@[k], parent.children@[k]) by {
                        if k != i {
                            lemma_deep_eq_refl(cs[k]);
                        }
                    }
                }
                if well_formed(old_parent) {
                    assert(well_formed_at(old_parent, i as int));
                    lemma_sorted_update(cs, i as int, c2);
                    assert forall|k: int| 0 <= k < ns.len() implies well_formed(#[trigger] parent.children@[k]) by {
                        if k != i {
                            assert(well_formed_at(old_parent, k));
                        }
                    }
                }
            }
            r
        },
        None => {
            proof {
                lemma_child_named_none(cs, name@);
            }
            if is_leaf {
                let node = if is_dir {
                    TreeNode::dir(name.as_str(), full_path)
                } else {
                    TreeNode::file(name.as_str(), full_path)
                };
                let ghost nd = node;
                insert_sorted(&mut parent.children, node);
                proof {
                    let ns = parent.children@;
                    let p = choose|p: int| 0 <= p <= cs.len() && ns == cs.insert(p, nd);
                    lemma_child_named_insert(cs, p, nd, name@);
                    assert(rest.drop_first().len() == 0);
                    assert(find_spec(nd, rest.drop_first()) == Some(nd));
                    assert(child_named(ns, rest[0]) == Some(nd));
                    assert(find_spec(*parent, rest) == Some(nd));
                    assert(parts@.last() == parts@[idx as int]);
                    assert forall|q: Seq<Seq<char>>| #[trigger] has_path(*parent, q) <==> (has_path(old_parent, q) || is_nonempty_prefix(q, rest)) by {
                        if q.len() > 0 {
                            lemma_prefix_step(q, rest);
                            lemma_child_named_insert(cs, p, nd, q[0]);
                            if q[0] == name@ {
                                lemma_leaf_paths(nd, q.drop_first());
                            }
                        }
                    }
                    if well_formed(old_parent) {
                        assert forall|a: int, b: int| 0 <= a < ns.len() && 0 <= b < ns.len() && a != b implies #[trigger] ns[a].name@ != #[trigger] ns[b].name@ by {
                            if a != p && b != p {
                                let oa = if a < p { a } else { a - 1 };
                                let ob = if b < p { b } else { b - 1 };
                                assert(ns[a] == cs[oa] && ns[b] == cs[ob]);
                            } else if a == p {
                                let ob = if b < p { b } else { b - 1 };
                                assert(ns[b] == cs[ob]);
                            } else {
                                let oa = if a < p { a } else { a - 1 };
                                assert(ns[a] == cs[oa]);
                            }
                        }
                        assert forall|k: int| 0 <= k < ns.len() implies well_formed(#[trigger] parent.children@[k]) by {
                            if k < p {
                                assert(ns[k] == cs[k]);
                                assert(well_formed_at(old_parent, k));
                            } else if k > p {
                                assert(ns[k] == cs[k - 1]);
                                assert(well_formed_at(old_parent, k - 1));
                            } else {
                                lemma_leaf_well_formed(nd);
                            }
                        }
                    }
                }
                true
            } else {
                let path_so_far = build_path(full_path, parts.len() - idx);
                let mut dir_node = TreeNode::dir(name.as_str(), path_so_far.as_str());
                let ghost empty_dir = dir_node;
                proof {
                    lemma_leaf_well_formed(empty_dir);
                    lemma_leaf_paths(empty_dir, rest.drop_first());
                }
                let result = add_node_recursive(&mut dir_node, parts, idx + 1, full_path, is_dir);
                let ghost nd = dir_node;
                insert_sorted(&mut parent.children, dir_node);
                proof {
                    let ns = parent.children@;
                    let p = choose|p: int| 0 <= p <= cs.len() && ns == cs.insert(p, nd);
                    lemma_child_named_insert(cs, p, nd, name@);
                    assert(child_named(ns, name@) == Some(nd));
                    assert(views(parts@).take(idx + 1) == path_parts(full_path@).take(
                        path_parts(full_path@).len() - (parts@.len() - idx) + 1,
                    ));
                    assert(views(parts@)[idx + 1 - 1] == name@);
                    assert forall|k: int| 1 <= k < parts@.len() - idx && !has_path(old_parent, rest.take(k))
                        implies created_dir(#[trigger] find_spec(*parent, rest.take(k)), views(parts@), idx + k) by {
                        let q = rest.take(k);
                        assert(q[0] == name@);
                        if k == 1 {
                            assert(q.drop_first().len() == 0);
                            assert(find_spec(*parent, q) == find_spec(nd, q.drop_first()));
                            assert(find_spec(*parent, q) == Some(nd));
                        } else {
                            assert(q.drop_first() == views(parts@).skip(idx + 1).take(k - 1));
                            assert(find_spec(*parent, q) == find_spec(nd, q.drop_first()));
                            lemma_leaf_paths(empty_dir, q.drop_first());
                            assert(!has_path(empty_dir, views(parts@).skip(idx + 1).take(k - 1)));
                            assert(created_dir(find_spec(nd, views(parts@).skip(idx + 1).take(k - 1)), views(parts@), idx + 1 + (k - 1)));
                        }
                    }
                    assert forall|q: Seq<Seq<char>>| #[trigger] has_path(*parent, q) <==> (has_path(old_parent, q) || is_nonempty_prefix(q, rest)) by {
                        if q.len() > 0 {
                            lemma_prefix_step(q, rest);
                            lemma_child_named_insert(cs, p, nd, q[0]);
                            if q[0] == name@ {
                                lemma_leaf_paths(empty_dir, q.drop_first());
                                assert(has_path(nd, q.drop_first()) <==> (has_path(empty_dir, q.drop_first()) || is_nonempty_prefix(q.drop_first(), rest.drop_first())));
                                assert(child_named(cs, q[0]) is None);
                            }
                        }
                    }
                    if well_formed(old_parent) {
                        assert forall|a: int, b: int| 0 <= a < ns.len() && 0 <= b < ns.len() && a != b implies #[trigger] ns[a].name@ != #[trigger] ns[b].name@ by {
                            if a != p && b != p {
                                let oa = if a < p { a } else { a - 1 };
                                let ob = if b < p { b } else { b - 1 };
                                assert(ns[a] == cs[oa] && ns[b] == cs[ob]);
                            } else if a == p {
                                let ob = if b < p { b } else { b - 1 };
                                assert(ns[b] == cs[ob]);
                            } else {
                                let oa = if a < p { a } else { a - 1 };
                                assert(ns[a] == cs[oa]);
                            }
                        }
                        assert forall|k: int| 0 <= k < ns.len() implies well_formed(#[trigger] parent.children@[k]) by {
                            if k < p {
                                assert(ns[k] == cs[k]);
                                assert(well_formed_at(old_parent, k));
                            } else if k > p {
                                assert(ns[k] == cs[k - 1]);
                                assert(well_formed_at(old_parent, k - 1));
                            }
                        }
                    }
                }
                result
            }
        },
    }
}

/// Adds a node for `file_path` (creating missing intermediate directories)
/// at its sorted position.  Returns `false`, leaving the tree as it was,
/// when the path has no components or is already present.
pub fn add_node(root: &mut TreeNode, file_path: &str, is_dir: bool) -> (r: bool)
    ensures
        same_node_fields(*old(root), *final(root)),
        r == (path_parts(file_path@).len() > 0 && !has_path(*old(root), path_parts(file_path@))),
        !r ==> deep_eq(*old(root), *final(root)),
        r ==> (find_spec(*final(root), path_parts(file_path@)) matches Some(n) && leaf_node(
            path_parts(file_path@).last(),
            file_path@,
            is_dir,
            n,
        )),
        forall|q: Seq<Seq<char>>| #[trigger]
            has_path(*final(root), q) <==> (has_path(*old(root), q) || is_nonempty_prefix(
                q,
                path_parts(file_path@),
            )),
        well_formed(*old(root)) ==> well_formed(*final(root)),
        forall|k: int| 1 <= k < path_parts(file_path@).len() && !has_path(*old(root), path_parts(file_path@).take(k))
            ==> created_dir(
            #[trigger] find_spec(*final(root), path_parts(file_path@).take(k)),
            path_parts(file_path@),
            k,
        ),
{
    let parts = split_path(file_path);
    if parts.len() == 0 {
        proof {
            lemma_deep_eq_refl(*root);
            assert forall|q: Seq<Seq<char>>| #[trigger] has_path(*root, q) <==> (has_path(*root, q) || is_nonempty_prefix(q, path_parts(file_path@))) by {}
        }
        return false;
    }
    assert(views(parts@).skip(0) == views(parts@));
    assert(views(parts@).last() == parts@.last()@);
    add_node_recursive(root, &parts, 0, file_path, is_dir)
}


/// Removes the node for `parts[idx..]` below `parent`.
fn remove_node_recursive(parent: &mut TreeNode, parts: &Vec<String>, idx: usize) -> (r: bool)
    requires
        idx < parts@.len(),
    ensures
        same_node_fields(*old(parent), *final(parent)),
        r == has_path(*old(parent), views(parts@).skip(idx as int)),
        !r ==> deep_eq(*old(parent), *final(parent)),
        well_formed(*old(parent)) ==> well_formed(*final(parent)),
        deep_unique(*old(parent)) ==> forall|q: Seq<Seq<char>>| #[trigger]
            has_path(*final(parent), q) <==> (has_path(*old(parent), q) && !is_prefix(
                views(parts@).skip(idx as int),
                q,
            )),
    decreases parts@.len() - idx,
{
    let ghost rest = views(parts@).skip(idx as int);
    let ghost cs = parent.children@;
    let ghost old_parent = *parent;
    let name = &parts[idx];
    let is_leaf = idx == parts.len() - 1;
    assert(rest[0] == name@);
    assert(rest.drop_first() == views(parts@).skip(idx + 1));
    proof {
        lemma_first_named_char(cs, name@, 0);
        lemma_remove_named(cs, name@);
    }
    if is_leaf {
        let before = parent.children.len();
        let mut i: usize = 0;
        let ghost mut k: int = 0;
        assert(cs.take(0) == Seq::<TreeNode>::empty());
        assert(cs.skip(0) == cs);
        while i < parent.children.len()
            invariant
                0 <= k <= cs.len(),
                i <= parent.children@.len(),
                parent.children@.take(i as int) == remove_named(cs.take(k), name@),
                parent.children@.skip(i as int) == cs.skip(k),
                parent.name == old_parent.name,
                parent.path == old_parent.path,
                parent.is_dir == old_parent.is_dir,
            decreases parent.children@.len() - i,
        {
            let ghost ch = parent.children@;
            assert(cs.skip(k).len() == ch.len() - i);
            assert(ch.skip(i as int)[0] == ch[i as int]);
            assert(cs.skip(k)[0] == cs[k]);
            assert(cs.take(k + 1).drop_last() == cs.take(k));
            assert(cs.take(k + 1).last() == cs[k]);
            if parent.children[i].name == *name {
                parent.children.remove(i);
                proof {
                    assert(parent.children@.take(i as int) == ch.take(i as int));
                    assert(parent.children@.skip(i as int) == ch.skip(i + 1));
                    assert(ch.skip(i + 1) == ch.skip(i as int).drop_first());
                    assert(cs.skip(k + 1) == cs.skip(k).drop_first());
                    k = k + 1;
                }
            } else {
                proof {
                    assert(ch.take(i + 1) == ch.take(i as int).push(ch[i as int]));
                    assert(ch.skip(i + 1) == ch.skip(i as int).drop_first());
                    assert(cs.skip(k + 1) == cs.skip(k).drop_first());
                    k = k + 1;
                }
                i = i + 1;
            }
        }
        proof {
            let ns = parent.children@;
            assert(cs.skip(k).len() == 0);
            assert(cs.take(k) == cs);
            assert(ns.take(i as int) == ns);
            assert(ns == remove_named(cs, name@));
        }
        let r = parent.children.len() < before;
        proof {
            let ns = parent.children@;
            assert(rest.drop_first().len() == 0);
            if r {
                let j = choose|j: int| 0 <= j < cs.len() && #[trigger] cs[j].name@ == name@;
                let fi = first_named(cs, name@, 0)->0;
                assert(find_spec(cs[fi], rest.drop_first()) is Some);
            } else {
                assert(ns == cs);
                lemma_deep_eq_refl(*parent);
            }
            if well_formed(old_parent) {
                assert forall|k2: int| 0 <= k2 < ns.len() implies well_formed(#[trigger] parent.children@[k2]) by {
                    assert(ns.contains(ns[k2]));
                    let j = choose|j: int| 0 <= j < cs.len() && cs[j] == ns[k2];
                    assert(well_formed_at(old_parent, j));
                }
            }
            if deep_unique(old_parent) {
                assert forall|q: Seq<Seq<char>>| #[trigger] has_path(*parent, q) <==> (has_path(old_parent, q) && !is_prefix(rest, q)) by {
                    if q.len() > 0 {
                        lemma_prefix_step(q, rest);
                        assert(rest.drop_first().len() == 0);
                        assert(q.drop_first().take(0) == rest.drop_first());
                        if q[0] == name@ {
                            assert forall|j: int| 0 <= j < ns.len() implies #[trigger] ns[j].name@ != q[0] by {
                                assert(ns.contains(ns[j]));
                                assert(remove_named(cs, name@).contains(ns[j]));
                            }
                            lemma_child_named_none(ns, q[0]);
                            assert(!has_path(*parent, q));
                        } else {
                            match child_named(cs, q[0]) {
                                Some(x) => {
                                    lemma_child_named_unique(cs, q[0], x);
                                    assert(remove_named(cs, name@).contains(x));
                                    lemma_child_named_unique(ns, q[0], x);
                                },
                                None => {
                                    match child_named(ns, q[0]) {
                                        Some(y) => {
                                            lemma_child_named_unique(ns, q[0], y);
                                            assert(remove_named(cs, name@).contains(y));
                                            lemma_child_named_unique(cs, q[0], y);
                                        },
                                        None => {},
                                    }
                                },
                            }
                            assert(child_named(ns, q[0]) == child_named(cs, q[0]));
                        }
                    }
                }
            }
        }
        r
    } else {
        match find_child(&parent.children, name) {
            None => {
                proof {
                    lemma_child_named_none(cs, name@);
                    lemma_deep_eq_refl(*parent);
                    assert forall|q: Seq<Seq<char>>| #[trigger] has_path(*parent, q) <==> (has_path(old_parent, q) && !is_prefix(rest, q)) by {
                        if has_path(old_parent, q) && is_prefix(rest, q) {
                            lemma_has_path_prefix(old_parent, rest, q);
                        }
                    }
                }
                false
            },
            Some(i) => {
                let ghost child_old = cs[i as int];
                let r = remove_node_recursive(&mut parent.children[i], parts, idx + 1);
                proof {
                    let ns = parent.children@;
                    let c2 = ns[i as int];
                    assert(ns == cs.update(i as int, c2));
                    assert(child_named(cs, name@) == Some(child_old));
                    if !r {
                        assert forall|k: int| 0 <= k < ns.len() implies deep_eq(#[trigger] old_parent.children@[k], parent.children@[k]) by {
                            if k != i {
                                lemma_deep_eq_refl(cs[k]);
                            }
                        }
                    }
                    if well_formed(old_parent) {
                        assert(well_formed_at(old_parent, i as int));
                        lemma_sorted_update(cs, i as int, c2);
                        assert forall|k: int| 0 <= k < ns.len() implies well_formed(#[trigger] parent.children@[k]) by {
                            if k != i {
                                assert(well_formed_at(old_parent, k));
                            }
                        }
                    }
                    if deep_unique(old_parent) {
                        assert(deep_unique(child_old));
                        assert forall|q: Seq<Seq<char>>| #[trigger] has_path(*parent, q) <==> (has_path(old_parent, q) && !is_prefix(rest, q)) by {
                            if q.len() > 0 {
                                lemma_prefix_step(q, rest);
                                lemma_first_named_char(cs, q[0], 0);
                                lemma_child_named_update(cs, i as int, c2, q[0]);
                                if q[0] == name@ {
                                    assert(has_path(c2, q.drop_first()) <==> (has_path(child_old, q.drop_first()) && !is_prefix(rest.drop_first(), q.drop_first())));
                                } else {
                                    assert(first_named(cs, q[0], 0) != Some(i as int));
                                }
                            }
                        }
                    }
                }
                r
            },
        }
    }
}

/// Removes the node at `file_path` together with everything below it.
/// Returns `true` when such a node was found.
pub fn remove_node(root: &mut TreeNode, file_path: &str) -> (r: bool)
    ensures
        same_node_fields(*old(root), *final(root)),
        r == (path_parts(file_path@).len() > 0 && has_path(*old(root), path_parts(file_path@))),
        !r ==> deep_eq(*old(root), *final(root)),
        well_formed(*old(root)) ==> well_formed(*final(root)),
        deep_unique(*old(root)) && path_parts(file_path@).len() > 0 ==> forall|q: Seq<Seq<char>>|
            #[trigger] has_path(*final(root), q) <==> (has_path(*old(root), q) && !is_prefix(
                path_parts(file_path@),
                q,
            )),
{
    let parts = split_path(file_path);
    if parts.len() == 0 {
        proof {
            lemma_deep_eq_refl(*root);
        }
        return false;
    }
    assert(views(parts@).skip(0) == views(parts@));
    remove_node_recursive(root, &parts, 0)
}

/// The paths present after removing `op` from `t` and adding `np`.
pub open spec fn renamed_has_path(
    t: TreeNode,
    op: Seq<Seq<char>>,
    np: Seq<Seq<char>>,
    q: Seq<Seq<char>>,
) -> bool {
    (has_path(t, q) && !is_prefix(op, q)) || is_nonempty_prefix(q, np)
}

/// Moves the node at `old_path` to `new_path`: removes it (with everything
/// below it) and adds a node of kind `is_dir` at the new place.  Returns
/// `false` when the old path is absent (the tree is then unchanged) or the
/// new path is already present once the old one is gone.
pub fn rename_node(root: &mut TreeNode, old_path: &str, new_path: &str, is_dir: bool) -> (r: bool)
    ensures
        same_node_fields(*old(root), *final(root)),
        !(path_parts(old_path@).len() > 0 && has_path(*old(root), path_parts(old_path@))) ==> (!r
            && deep_eq(*old(root), *final(root))),
        well_formed(*old(root)) ==> well_formed(*final(root)),
        well_formed(*old(root)) && path_parts(old_path@).len() > 0 && has_path(
            *old(root),
            path_parts(old_path@),
        ) ==> {
            &&& r == (path_parts(new_path@).len() > 0 && !(has_path(
                *old(root),
                path_parts(new_path@),
            ) && !is_prefix(path_parts(old_path@), path_parts(new_path@))))
            &&& forall|q: Seq<Seq<char>>| #[trigger]
                has_path(*final(root), q) <==> renamed_has_path(
                    *old(root),
                    path_parts(old_path@),
                    path_parts(new_path@),
                    q,
                )
            &&& r ==> (find_spec(*final(root), path_parts(new_path@)) matches Some(n)
                && leaf_node(path_parts(new_path@).last(), new_path@, is_dir, n))
        },
{
    let ghost t0 = *root;
    let removed = remove_node(root, old_path);
    if !removed {
        return false;
    }
    let ghost t1 = *root;
    let added = add_node(root, new_path, is_dir);
    proof {
        if well_formed(t0) {
            lemma_well_formed_parts(t0);
            let op = path_parts(old_path@);
            let np = path_parts(new_path@);
            assert(has_path(t1, np) == (has_path(t0, np) && !is_prefix(op, np)));
            assert forall|q: Seq<Seq<char>>| #[trigger] has_path(*root, q) <==> renamed_has_path(t0, op, np, q) by {
                assert(has_path(*root, q) <==> (has_path(t1, q) || is_nonempty_prefix(q, np)));
                assert(has_path(t1, q) <==> (has_path(t0, q) && !is_prefix(op, q)));
            }
        }
    }
    added
}

/// The node reached from `parent` by `parts[idx..]`.
fn find_node_recursive<'a>(parent: &'a TreeNode, parts: &Vec<String>, idx: usize) -> (r: Option<&'a TreeNode>)
    requires
        idx <= parts@.len(),
    ensures
        match r {
            Some(n) => find_spec(*parent, views(parts@).skip(idx as int)) == Some(*n),
            None => find_spec(*parent, views(parts@).skip(idx as int)) is None,
        },
    decreases parts@.len() - idx,
{
    if idx == parts.len() {
        assert(views(parts@).skip(idx as int).len() == 0);
        return Some(parent);
    }
    let ghost rest = views(parts@).skip(idx as int);
    assert(rest[0] == parts@[idx as int]@);
    assert(rest.drop_first() == views(parts@).skip(idx + 1));
    proof {
        lemma_first_named_char(parent.children@, parts@[idx as int]@, 0);
    }
    match find_child(&parent.children, &parts[idx]) {
        Some(i) => find_node_recursive(&parent.children[i], parts, idx + 1),
        None => None,
    }
}

/// The node at `file_path`, following at each level the first child with
/// the component's name; the root itself for a path without components.
pub fn find_node<'a>(root: &'a TreeNode, file_path: &str) -> (r: Option<&'a TreeNode>)
    ensures
        match r {
            Some(n) => find_spec(*root, path_parts(file_path@)) == Some(*n),
            None => find_spec(*root, path_parts(file_path@)) is None,
        },
{
    let parts = split_path(file_path);
    assert(views(parts@).skip(0) == views(parts@));
    find_node_recursive(root, &parts, 0)
}


/// Every level of the tree is in display order.
pub open spec fn deep_sorted(t: TreeNode) -> bool
    decreases t,
{
    &&& sorted(t.children@)
    &&& forall|i: int| 0 <= i < t.children@.len() ==> deep_sorted(#[trigger] t.children@[i])
}

/// No level of the tree holds two siblings with one name.
pub open spec fn deep_unique(t: TreeNode) -> bool
    decreases t,
{
    &&& unique_names(t.children@)
    &&& forall|i: int| 0 <= i < t.children@.len() ==> deep_unique(#[trigger] t.children@[i])
}

/// Names of `a` and `b` are pairwise different.
pub open spec fn disjoint_names(a: Seq<TreeNode>, b: Seq<TreeNode>) -> bool {
    forall|i: int, j: int| 0 <= i < a.len() && 0 <= j < b.len() ==> #[trigger] a[i].name@ != #[trigger] b[j].name@
}

proof fn lemma_well_formed_parts(t: TreeNode)
    ensures
        well_formed(t) <==> (deep_sorted(t) && deep_unique(t)),
    decreases t,
{
    assert forall|i: int| 0 <= i < t.children@.len() implies (well_formed(#[trigger] t.children@[i]) <==> (deep_sorted(t.children@[i]) && deep_unique(t.children@[i]))) by {
        lemma_well_formed_parts(t.children@[i]);
    }
}

/// Stable insertion sort of siblings by display order.
fn sort_children(children: Vec<TreeNode>) -> (out: Vec<TreeNode>)
    ensures
        out@ == sort_spec(children@),
        sorted(out@),
        out@.len() == children@.len(),
        forall|x: TreeNode| #[trigger] out@.contains(x) <==> children@.contains(x),
        unique_names(children@) ==> unique_names(out@),
{
    let ghost cs = children@;
    let mut rest = children;
    let mut out: Vec<TreeNode> = Vec::new();
    assert(cs.skip(0) == cs);
    assert(cs.take(0).len() == 0);
    while rest.len() > 0
        invariant
            sorted(out@),
            out@.len() + rest@.len() == cs.len(),
            rest@ == cs.skip(cs.len() - rest@.len()),
            out@ == sort_spec(cs.take(cs.len() - rest@.len())),
            forall|x: TreeNode| (#[trigger] out@.contains(x) || rest@.contains(x)) <==> cs.contains(x),
            unique_names(cs) ==> (unique_names(out@) && unique_names(rest@) && disjoint_names(out@, rest@)),
        decreases rest@.len(),
    {
        let ghost o = out@;
        let ghost r = rest@;
        let x = rest.remove(0);
        assert(rest@ == r.drop_first());
        insert_sorted(&mut out, x);
        proof {
            let k = cs.len() - r.len();
            assert(x == cs[k]);
            assert(cs.take(k + 1).drop_last() == cs.take(k));
            assert(cs.take(k + 1).last() == cs[k]);
            assert(rest@ == cs.skip(k + 1));
        }
        proof {
            let p = choose|p: int| 0 <= p <= o.len() && out@ == o.insert(p, x);
            assert forall|y: TreeNode| (#[trigger] out@.contains(y) || rest@.contains(y)) <==> cs.contains(y) by {
                if out@.contains(y) {
                    let k = choose|k: int| 0 <= k < out@.len() && out@[k] == y;
                    if k < p {
                        assert(o[k] == y);
                        assert(o.contains(y));
                    } else if k > p {
                        assert(o[k - 1] == y);
                        assert(o.contains(y));
                    } else {
                        assert(r[0] == y);
                        assert(r.contains(y));
                    }
                }
                if rest@.contains(y) {
                    let k = choose|k: int| 0 <= k < rest@.len() && rest@[k] == y;
                    assert(r[k + 1] == y);
                    assert(r.contains(y));
                }
                if o.contains(y) {
                    let k = choose|k: int| 0 <= k < o.len() && o[k] == y;
                    if k < p {
                        assert(out@[k] == y);
                    } else {
                        assert(out@[k + 1] == y);
                    }
                }
                if r.contains(y) {
                    let k = choose|k: int| 0 <= k < r.len() && r[k] == y;
                    if k == 0 {
                        assert(out@[p] == y);
                    } else {
                        assert(rest@[k - 1] == y);
                    }
                }
            }
            if unique_names(cs) {
                let ns = out@;
                assert forall|a: int, b: int| 0 <= a < ns.len() && 0 <= b < ns.len() && a != b implies #[trigger] ns[a].name@ != #[trigger] ns[b].name@ by {
                    if a != p && b != p {
                        let oa = if a < p { a } else { a - 1 };
                        let ob = if b < p { b } else { b - 1 };
                        assert(ns[a] == o[oa] && ns[b] == o[ob]);
                    } else if a == p {
                        let ob = if b < p { b } else { b - 1 };
                        assert(ns[b] == o[ob]);
                        assert(o[ob].name@ != r[0].name@);
                    } else {
                        let oa = if a < p { a } else { a - 1 };
                        assert(ns[a] == o[oa]);
                        assert(o[oa].name@ != r[0].name@);
                    }
                }
                assert forall|a: int, b: int| 0 <= a < rest@.len() && 0 <= b < rest@.len() && a != b implies #[trigger] rest@[a].name@ != #[trigger] rest@[b].name@ by {
                    assert(rest@[a] == r[a + 1] && rest@[b] == r[b + 1]);
                }
                assert forall|a: int, b: int| 0 <= a < ns.len() && 0 <= b < rest@.len() implies #[trigger] ns[a].name@ != #[trigger] rest@[b].name@ by {
                    assert(rest@[b] == r[b + 1]);
                    if a == p {
                        assert(ns[a] == r[0]);
                    } else {
                        let oa = if a < p { a } else { a - 1 };
                        assert(ns[a] == o[oa]);
                    }
                }
            }
        }
    }
    proof {
        assert(cs.take(cs.len() as int) == cs);
        assert forall|x: TreeNode| #[trigger] out@.contains(x) <==> cs.contains(x) by {
            if rest@.contains(x) {
                let k = choose|k: int| 0 <= k < rest@.len() && rest@[k] == x;
            }
        }
    }
    out
}

impl TreeNode {
    /// Puts the children of every level into display order (directories
    /// first, then names ignoring case; the sort is stable).
    pub fn sort_recursive(&mut self)
        ensures
            sorted_as(*old(self), *final(self)),
            same_node_fields(*old(self), *final(self)),
            final(self).children@.len() == old(self).children@.len(),
            deep_sorted(*final(self)),
            deep_unique(*old(self)) ==> well_formed(*final(self)),
            deep_unique(*old(self)) ==> forall|q: Seq<Seq<char>>| #[trigger]
                has_path(*final(self), q) <==> has_path(*old(self), q),
        decreases *old(self),
    {
        let ghost t0 = *self;
        let ghost cs = self.children@;
        let mut taken: Vec<TreeNode> = Vec::new();
        std::mem::swap(&mut self.children, &mut taken);
        let sorted_children = sort_children(taken);
        self.children = sorted_children;
        let ghost mid = self.children@;
        let n = self.children.len();
        for i in 0..n
            invariant
                n == self.children@.len(),
                n == mid.len(),
                same_node_fields(t0, *self),
                sorted(mid),
                forall|x: TreeNode| #[trigger] mid.contains(x) <==> cs.contains(x),
                unique_names(cs) ==> unique_names(mid),
                forall|k: int| 0 <= k < n ==> same_node_fields(#[trigger] mid[k], self.children@[k]),
                forall|k: int| 0 <= k < i ==> deep_sorted(#[trigger] self.children@[k]),
                forall|k: int| 0 <= k < i ==> sorted_as(mid[k], #[trigger] self.children@[k]),
                mid == sort_spec(cs),
                forall|k: int| i <= k < n ==> #[trigger] self.children@[k] == mid[k],
                forall|k: int| 0 <= k < i ==> (deep_unique(#[trigger] mid[k]) ==> (well_formed(self.children@[k]) && forall|q: Seq<Seq<char>>| #[trigger] has_path(self.children@[k], q) <==> has_path(mid[k], q))),
                mid.len() == cs.len(),
                cs == t0.children@,
                t0 == *old(self),
        {
            proof {
                assert(mid.contains(mid[i as int]));
                assert(cs.contains(mid[i as int]));
                let j = choose|j: int| 0 <= j < cs.len() && cs[j] == mid[i as int];
                assert(t0.children@[j] == mid[i as int]);
                broadcast use vstd::std_specs::vec::axiom_vec_decreases_to_view;
                assert(decreases_to!(t0 => t0.children));
                assert(decreases_to!(t0.children => t0.children@));
                assert(decreases_to!(t0.children@ => t0.children@[j]));
                assert(decreases_to!(t0 => self.children@[i as int]));
            }
            self.children[i].sort_recursive();
        }
        proof {
            let fc = self.children@;
            assert forall|a: int, b: int| 0 <= a < b < fc.len() implies !key_lt(#[trigger] fc[b], #[trigger] fc[a]) by {
                assert(same_node_fields(mid[a], fc[a]) && same_node_fields(mid[b], fc[b]));
                assert(!key_lt(mid[b], mid[a]));
            }
            if deep_unique(t0) {
                assert(unique_names(mid));
                assert forall|a: int, b: int| 0 <= a < fc.len() && 0 <= b < fc.len() && a != b implies #[trigger] fc[a].name@ != #[trigger] fc[b].name@ by {
                    assert(same_node_fields(mid[a], fc[a]) && same_node_fields(mid[b], fc[b]));
                    assert(mid[a].name@ != mid[b].name@);
                }
                assert forall|k: int| 0 <= k < fc.len() implies deep_unique(#[trigger] mid[k]) by {
                    assert(mid.contains(mid[k]));
                    let j = choose|j: int| 0 <= j < cs.len() && cs[j] == mid[k];
                    assert(deep_unique(t0.children@[j]));
                }
                assert forall|k: int| 0 <= k < fc.len() implies well_formed(#[trigger] fc[k]) by {
                    assert(deep_unique(mid[k]));
                }
                assert forall|q: Seq<Seq<char>>| #[trigger] has_path(*self, q) <==> has_path(t0, q) by {
                    if q.len() > 0 {
                        let n0 = q[0];
                        match child_named(cs, n0) {
                            Some(x) => {
                                lemma_child_named_unique(cs, n0, x);
                                let k = choose|k: int| 0 <= k < mid.len() && mid[k] == x;
                                assert(mid.contains(x));
                                assert(fc.contains(fc[k]));
                                lemma_child_named_unique(fc, n0, fc[k]);
                                assert(deep_unique(mid[k]));
                                assert(has_path(fc[k], q.drop_first()) <==> has_path(mid[k], q.drop_first()));
                            },
                            None => {
                                match child_named(fc, n0) {
                                    Some(y) => {
                                        lemma_child_named_unique(fc, n0, y);
                                        let k = choose|k: int| 0 <= k < fc.len() && fc[k] == y;
                                        assert(mid.contains(mid[k]));
                                        lemma_child_named_unique(cs, n0, mid[k]);
                                    },
                                    None => {},
                                }
                            },
                        }
                    }
                }
            }
        }
    }
}

} // verus!

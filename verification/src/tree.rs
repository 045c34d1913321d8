use vstd::prelude::*;

verus! {

/// A tree whose nodes carry a key and maybe a value; a node's children are
/// found by key, the first child with that key winning.
pub struct Tree<V> {
    subtrees: Vec<Tree<V>>,
    key: String,
    value: Option<V>,
}

/// The index of the first of `children` from `i` on whose key is `key`.
pub open spec fn find_from<V>(children: Seq<Tree<V>>, key: Seq<char>, i: int) -> Option<int>
    decreases children.len() - i,
{
    if i < 0 || i >= children.len() {
        None
    } else if children[i].spec_key() == key {
        Some(i)
    } else {
        find_from(children, key, i + 1)
    }
}

/// The node that `path` leads to from a node whose children are `children`:
/// each step takes the first child with the next key.
pub open spec fn descend<V>(children: Seq<Tree<V>>, path: Seq<Seq<char>>) -> Option<Tree<V>>
    decreases path.len(),
{
    if path.len() == 0 {
        None
    } else {
        match find_from(children, path[0], 0) {
            None => None,
            Some(i) => if path.len() == 1 {
                Some(children[i])
            } else {
                descend(children[i].children(), path.drop_first())
            },
        }
    }
}

/// The node that `path` leads to from `t`; the empty path leads to `t`.
pub open spec fn node_at<V>(t: Tree<V>, path: Seq<Seq<char>>) -> Option<Tree<V>> {
    if path.len() == 0 {
        Some(t)
    } else {
        descend(t.children(), path)
    }
}

/// The keys of a path of strings.
pub open spec fn path_keys(path: Seq<String>) -> Seq<Seq<char>> {
    path.map_values(|s: String| s@)
}

/// Whether `t` is a node with key `key`, value `value` and no children.
pub open spec fn is_leaf<V>(t: Tree<V>, key: Seq<char>, value: Option<V>) -> bool {
    &&& t.spec_key() == key
    &&& t.spec_value() == value
    &&& t.children().len() == 0
}

/// Whether `new` is what inserting `value` at `path` below a node with key
/// `key`, value `val` and children `kids` gives: the missing nodes along the
/// path are added without value, and a new node with `value` is added as the
/// last child of the node that the path without its last key leads to.
pub open spec fn inserted<V>(
    key: Seq<char>,
    val: Option<V>,
    kids: Seq<Tree<V>>,
    new: Tree<V>,
    path: Seq<Seq<char>>,
    value: Option<V>,
) -> bool
    decreases path.len(),
{
    &&& new.spec_key() == key
    &&& new.spec_value() == val
    &&& path.len() >= 1
    &&& if path.len() == 1 {
        &&& new.children().len() == kids.len() + 1
        &&& new.children().subrange(0, kids.len() as int) == kids
        &&& is_leaf(new.children()[kids.len() as int], path[0], value)
    } else {
        match find_from(kids, path[0], 0) {
            Some(i) => {
                &&& new.children().len() == kids.len()
                &&& forall|j: int| 0 <= j < kids.len() && j != i ==> new.children()[j] == kids[j]
                &&& inserted(
                    kids[i].spec_key(),
                    kids[i].spec_value(),
                    kids[i].children(),
                    new.children()[i],
                    path.drop_first(),
                    value,
                )
            },
            None => {
                &&& new.children().len() == kids.len() + 1
                &&& new.children().subrange(0, kids.len() as int) == kids
                &&& inserted(
                    path[0],
                    None,
                    Seq::empty(),
                    new.children()[kids.len() as int],
                    path.drop_first(),
                    value,
                )
            },
        }
    }
}

/// Whether `new` is `old` with the node that `path` leads to replaced by
/// `sub`.
pub open spec fn replaced<V>(before: Tree<V>, after: Tree<V>, path: Seq<Seq<char>>, sub: Tree<V>) -> bool
    decreases path.len(),
{
    if path.len() == 0 {
        after == sub
    } else {
        match find_from(before.children(), path[0], 0) {
            None => after == before,
            Some(i) => {
                &&& after.spec_key() == before.spec_key()
                &&& after.spec_value() == before.spec_value()
                &&& after.children().len() == before.children().len()
                &&& forall|j: int|
                    0 <= j < before.children().len() && j != i ==> after.children()[j]
                        == before.children()[j]
                &&& replaced(before.children()[i], after.children()[i], path.drop_first(), sub)
            },
        }
    }
}

proof fn lemma_find_from_bounds<V>(children: Seq<Tree<V>>, key: Seq<char>, i: int)
    requires
        0 <= i,
    ensures
        find_from(children, key, i) matches Some(k) ==> i <= k < children.len()
            && children[k].spec_key() == key && forall|j: int|
            i <= j < k ==> children[j].spec_key() != key,
        find_from(children, key, i) is None ==> forall|j: int|
            i <= j < children.len() ==> children[j].spec_key() != key,
    decreases children.len() - i,
{
    if !(i < 0 || i >= children.len()) && children[i].spec_key() != key {
        lemma_find_from_bounds(children, key, i + 1);
    }
}

proof fn lemma_find_from_same_keys<V>(a: Seq<Tree<V>>, b: Seq<Tree<V>>, key: Seq<char>, i: int)
    requires
        0 <= i,
        a.len() <= b.len(),
        forall|j: int| 0 <= j < a.len() ==> a[j].spec_key() == b[j].spec_key(),
        find_from(a, key, i) is Some,
    ensures
        find_from(b, key, i) == find_from(a, key, i),
    decreases a.len() - i,
{
    if i < a.len() && a[i].spec_key() != key {
        lemma_find_from_same_keys(a, b, key, i + 1);
    }
}

proof fn lemma_find_from_appended<V>(a: Seq<Tree<V>>, b: Seq<Tree<V>>, key: Seq<char>, i: int)
    requires
        0 <= i <= a.len(),
        b.len() == a.len() + 1,
        forall|j: int| 0 <= j < a.len() ==> a[j].spec_key() == b[j].spec_key(),
        find_from(a, key, i) is None,
        b[a.len() as int].spec_key() == key,
    ensures
        find_from(b, key, i) == Some(a.len() as int),
    decreases a.len() - i,
{
    if i < a.len() {
        lemma_find_from_appended(a, b, key, i + 1);
    }
}

proof fn lemma_inserted_key<V>(
    key: Seq<char>,
    val: Option<V>,
    kids: Seq<Tree<V>>,
    new: Tree<V>,
    path: Seq<Seq<char>>,
    value: Option<V>,
)
    requires
        inserted(key, val, kids, new, path, value),
    ensures
        new.spec_key() == key,
{
}

/// One step of a path: from `t`, the path goes on from the first child with
/// the path's first key.
proof fn lemma_node_at_step<V>(t: Tree<V>, keys: Seq<Seq<char>>)
    requires
        keys.len() >= 1,
    ensures
        match find_from(t.children(), keys[0], 0) {
            None => node_at(t, keys) is None,
            Some(j) => node_at(t, keys) == node_at(t.children()[j], keys.drop_first()),
        },
{
}

proof fn lemma_descend_empty<V>(path: Seq<Seq<char>>)
    ensures
        descend(Seq::<Tree<V>>::empty(), path) is None,
{
}

/// Inserting at a path that leads nowhere yet makes it lead to a leaf with the
/// inserted value.
proof fn lemma_inserted_found<V>(
    key: Seq<char>,
    val: Option<V>,
    kids: Seq<Tree<V>>,
    new: Tree<V>,
    path: Seq<Seq<char>>,
    value: Option<V>,
)
    requires
        inserted(key, val, kids, new, path, value),
        descend(kids, path) is None,
    ensures
        descend(new.children(), path) matches Some(n) && is_leaf(n, path.last(), value),
    decreases path.len(),
{
    let nk = new.children();
    lemma_find_from_bounds(kids, path[0], 0);
    if path.len() == 1 {
        assert forall|j: int| 0 <= j < kids.len() implies kids[j].spec_key() == nk[j].spec_key() by {
            assert(nk.subrange(0, kids.len() as int)[j] == nk[j]);
        }
        lemma_find_from_appended(kids, nk, path[0], 0);
    } else {
        match find_from(kids, path[0], 0) {
            Some(i) => {
                lemma_inserted_found(
                    kids[i].spec_key(),
                    kids[i].spec_value(),
                    kids[i].children(),
                    nk[i],
                    path.drop_first(),
                    value,
                );
                lemma_find_from_same_keys(kids, nk, path[0], 0);
            },
            None => {
                lemma_descend_empty::<V>(path.drop_first());
                lemma_inserted_key(
                    path[0],
                    None,
                    Seq::empty(),
                    nk[kids.len() as int],
                    path.drop_first(),
                    value,
                );
                lemma_inserted_found(
                    path[0],
                    None,
                    Seq::empty(),
                    nk[kids.len() as int],
                    path.drop_first(),
                    value,
                );
                assert forall|j: int| 0 <= j < kids.len() implies kids[j].spec_key()
                    == nk[j].spec_key() by {
                    assert(nk.subrange(0, kids.len() as int)[j] == nk[j]);
                }
                lemma_find_from_appended(kids, nk, path[0], 0);
            },
        }
    }
}

impl<V> Tree<V> {
    pub closed spec fn spec_key(&self) -> Seq<char> {
        self.key@
    }

    pub closed spec fn spec_value(&self) -> Option<V> {
        self.value
    }

    pub closed spec fn children(&self) -> Seq<Tree<V>> {
        self.subtrees@
    }

    /// A tree of one node.
    pub fn new(root_key: String, root_value: Option<V>) -> (t: Tree<V>)
        ensures
            is_leaf(t, root_key@, root_value),
    {
        Tree { subtrees: Vec::new(), key: root_key, value: root_value }
    }

    /// The first child whose key is `key`.
    pub fn get_subtree(&mut self, key: String) -> (r: Option<&mut Tree<V>>)
        ensures
            match find_from(old(self).children(), key@, 0) {
                None => r is None && *final(self) == *old(self),
                Some(i) => r is Some && *r->Some_0 == old(self).children()[i]
                    && final(self).children() == old(self).children().update(i, *final(r->Some_0))
                    && final(self).spec_key() == old(self).spec_key()
                    && final(self).spec_value() == old(self).spec_value(),
            },
    {
        let mut i: usize = 0;
        while i < self.subtrees.len()
            invariant
                i <= self.subtrees@.len(),
                *self == *old(self),
                find_from(self.subtrees@, key@, 0) == find_from(self.subtrees@, key@, i as int),
            decreases self.subtrees@.len() - i,
        {
            if self.subtrees[i].key == key {
                return Some(&mut self.subtrees[i]);
            }
            i = i + 1;
        }
        None
    }

    /// The index of the first child whose key is `key`.
    fn find_child(&self, key: &String) -> (r: Option<usize>)
        ensures
            r matches Some(i) ==> find_from(self.children(), key@, 0) == Some(i as int),
            r is None ==> find_from(self.children(), key@, 0) is None,
    {
        let mut i: usize = 0;
        while i < self.subtrees.len()
            invariant
                i <= self.subtrees@.len(),
                find_from(self.subtrees@, key@, 0) == find_from(self.subtrees@, key@, i as int),
            decreases self.subtrees@.len() - i,
        {
            if self.subtrees[i].key == *key {
                return Some(i);
            }
            i = i + 1;
        }
        None
    }

    /// Whether `path` from index `i` on leads somewhere from this node.
    fn has_path(&self, path: &Vec<String>, i: usize) -> (b: bool)
        requires
            i <= path@.len(),
        ensures
            b == node_at(*self, path_keys(path@).skip(i as int)) is Some,
        decreases path@.len() - i,
    {
        let ghost keys = path_keys(path@).skip(i as int);
        if i == path.len() {
            return true;
        }
        assert(keys[0] == path@[i as int]@);
        proof {
            lemma_node_at_step(*self, keys);
            lemma_find_from_bounds(self.children(), keys[0], 0);
            assert(path_keys(path@).skip(i + 1) =~= keys.drop_first());
        }
        match self.find_child(&path[i]) {
            None => false,
            Some(j) => self.subtrees[j].has_path(path, i + 1),
        }
    }

    fn node_by_path(&mut self, path: &Vec<String>, i: usize) -> (r: &mut Tree<V>)
        requires
            i <= path@.len(),
            node_at(*old(self), path_keys(path@).skip(i as int)) is Some,
        ensures
            node_at(*old(self), path_keys(path@).skip(i as int)) == Some(*r),
            replaced(*old(self), *final(self), path_keys(path@).skip(i as int), *final(r)),
        decreases path@.len() - i,
    {
        let ghost keys = path_keys(path@).skip(i as int);
        if i == path.len() {
            return self;
        }
        assert(keys[0] == path@[i as int]@);
        proof {
            lemma_node_at_step(*self, keys);
            lemma_find_from_bounds(self.children(), keys[0], 0);
            assert(path_keys(path@).skip(i + 1) =~= keys.drop_first());
        }
        let j = self.find_child(&path[i]).unwrap();
        let t = self.child_mut(j);
        t.node_by_path(path, i + 1)
    }

    /// The child at index `j`.
    fn child_mut(&mut self, j: usize) -> (r: &mut Tree<V>)
        requires
            j < old(self).children().len(),
        ensures
            *r == old(self).children()[j as int],
            final(self).children() == old(self).children().update(j as int, *final(r)),
            final(self).spec_key() == old(self).spec_key(),
            final(self).spec_value() == old(self).spec_value(),
    {
        &mut self.subtrees[j]
    }

    /// The node that `path` leads to, each step taking the first child with
    /// the next key; the empty path leads to this node.
    pub fn get_node_by_path(&mut self, path: Vec<String>) -> (r: Option<&mut Tree<V>>)
        ensures
            match node_at(*old(self), path_keys(path@)) {
                None => r is None && *final(self) == *old(self),
                Some(n) => r is Some && *r->Some_0 == n && replaced(
                    *old(self),
                    *final(self),
                    path_keys(path@),
                    *final(r->Some_0),
                ),
            },
    {
        proof {
            assert(path_keys(path@).skip(0) =~= path_keys(path@));
        }
        if self.has_path(&path, 0) {
            Some(self.node_by_path(&path, 0))
        } else {
            None
        }
    }

    /// The node's value.
    pub fn value(&mut self) -> (r: Option<&mut V>)
        ensures
            match old(self).spec_value() {
                None => r is None && *final(self) == *old(self),
                Some(v) => r is Some && *r->Some_0 == v && final(self).spec_value() == Some(
                    *final(r->Some_0),
                ) && final(self).spec_key() == old(self).spec_key() && final(self).children()
                    == old(self).children(),
            },
    {
        self.value.as_mut()
    }

    /// Adds a child with key `key` and value `value` after the others.
    pub fn insert_subtree(&mut self, key: String, value: Option<V>)
        ensures
            final(self).spec_key() == old(self).spec_key(),
            final(self).spec_value() == old(self).spec_value(),
            final(self).children().len() == old(self).children().len() + 1,
            final(self).children().subrange(0, old(self).children().len() as int) == old(
                self,
            ).children(),
            is_leaf(final(self).children()[old(self).children().len() as int], key@, value),
    {
        self.subtrees.push(Tree::new(key, value));
        proof {
            assert(self.subtrees@.subrange(0, old(self).subtrees@.len() as int)
                =~= old(self).subtrees@);
        }
    }

    fn insert_rec(&mut self, path: &Vec<String>, i: usize, value: Option<V>)
        requires
            i < path@.len(),
        ensures
            inserted(
                old(self).spec_key(),
                old(self).spec_value(),
                old(self).children(),
                *final(self),
                path_keys(path@).skip(i as int),
                value,
            ),
        decreases path@.len() - i,
    {
        let ghost keys = path_keys(path@).skip(i as int);
        assert(keys[0] == path@[i as int]@);
        if i == path.len() - 1 {
            self.insert_subtree(path[i].clone(), value);
            return ;
        }
        proof {
            assert(path_keys(path@).skip(i + 1) =~= keys.drop_first());
        }
        let ghost before = *self;
        proof {
            lemma_find_from_bounds(before.children(), keys[0], 0);
        }
        let idx = match self.find_child(&path[i]) {
            Some(j) => j,
            None => {
                self.insert_subtree(path[i].clone(), None);
                proof {
                    assert(self.children()[before.children().len() as int].children() =~= Seq::<
                        Tree<V>,
                    >::empty());
                }
                self.subtrees.len() - 1
            },
        };
        let ghost mid = *self;
        let child = &mut self.subtrees[idx];
        child.insert_rec(path, i + 1, value);
        proof {
            assert forall|j: int|
                0 <= j < before.children().len() && j != idx implies self.children()[j]
                == before.children()[j] by {
                if j < mid.children().len() {
                    assert(mid.children().subrange(0, before.children().len() as int)[j]
                        == mid.children()[j]);
                }
            }
            if find_from(before.children(), keys[0], 0) is None {
                assert(self.children().subrange(0, before.children().len() as int)
                    =~= before.children());
            }
        }
    }

    /// Inserts `value` at `path`: the nodes missing along the path are added
    /// without value, and a node with the last key and `value` is added as the
    /// last child of the node that the rest of the path leads to.
    pub fn insert_node_by_path(&mut self, path: Vec<String>, value: Option<V>)
        requires
            path@.len() >= 1,
        ensures
            inserted(
                old(self).spec_key(),
                old(self).spec_value(),
                old(self).children(),
                *final(self),
                path_keys(path@),
                value,
            ),
    {
        proof {
            assert(path_keys(path@).skip(0) =~= path_keys(path@));
        }
        self.insert_rec(&path, 0, value);
    }
}

/// Looking a path up is looking its first key up among the children, as
/// `get_subtree` does (the first child with the key), then the rest of the
/// path from the child found; the empty path leads to the node itself.
pub proof fn lemma_path_lookup<V>(t: Tree<V>, keys: Seq<Seq<char>>)
    ensures
        node_at(t, keys) == if keys.len() == 0 {
            Some(t)
        } else {
            match find_from(t.children(), keys[0], 0) {
                None => None,
                Some(j) => node_at(t.children()[j], keys.drop_first()),
            }
        },
{
    if keys.len() > 0 {
        lemma_node_at_step(t, keys);
    }
}

/// What is inserted at a path that led nowhere is found again at that path,
/// as a node with the path's last key, the inserted value and no children.
pub proof fn lemma_insert_then_get<V>(
    before: Tree<V>,
    after: Tree<V>,
    path: Seq<Seq<char>>,
    value: Option<V>,
)
    requires
        path.len() >= 1,
        inserted(before.spec_key(), before.spec_value(), before.children(), after, path, value),
        node_at(before, path) is None,
    ensures
        node_at(after, path) matches Some(n) && is_leaf(n, path.last(), value),
{
    lemma_inserted_found(before.spec_key(), before.spec_value(), before.children(), after, path, value);
}


/// The node that the child indices `pos` lead to from `t`: each index picks
/// a child by its place among its siblings; no index leads to `t`.
pub open spec fn node_at_pos<V>(t: Tree<V>, pos: Seq<usize>) -> Option<Tree<V>>
    decreases pos.len(),
{
    if pos.len() == 0 {
        Some(t)
    } else if pos[0] < t.children().len() {
        node_at_pos(t.children()[pos[0] as int], pos.drop_first())
    } else {
        None
    }
}

/// Whether `after` is `before` with the node at `pos` replaced by `sub`.
pub open spec fn replaced_at<V>(before: Tree<V>, after: Tree<V>, pos: Seq<usize>, sub: Tree<V>) -> bool
    decreases pos.len(),
{
    if pos.len() == 0 {
        after == sub
    } else if pos[0] < before.children().len() {
        &&& after.spec_key() == before.spec_key()
        &&& after.spec_value() == before.spec_value()
        &&& after.children().len() == before.children().len()
        &&& forall|j: int|
            0 <= j < before.children().len() && j != pos[0] ==> after.children()[j]
                == before.children()[j]
        &&& replaced_at(
            before.children()[pos[0] as int],
            after.children()[pos[0] as int],
            pos.drop_first(),
            sub,
        )
    } else {
        after == before
    }
}

/// The positions of the children of the node at `pos`, in their order.
pub open spec fn child_positions<V>(t: Tree<V>, pos: Seq<usize>) -> Seq<Seq<usize>> {
    match node_at_pos(t, pos) {
        Some(n) => Seq::new(n.children().len(), |j: int| pos.push(j as usize)),
        None => Seq::empty(),
    }
}

/// The positions of the children of each node of `level`, one node after
/// the other.
pub open spec fn expand<V>(t: Tree<V>, level: Seq<Seq<usize>>) -> Seq<Seq<usize>>
    decreases level.len(),
{
    if level.len() == 0 {
        Seq::empty()
    } else {
        expand(t, level.drop_last()) + child_positions(t, level.last())
    }
}

/// `s` from back to front.
pub open spec fn reversed<A>(s: Seq<A>) -> Seq<A> {
    Seq::new(s.len(), |i: int| s[s.len() - 1 - i])
}

/// The nodes at depth `k` in the order the breadth-first walk visits them:
/// first the root; then, level by level, the children of the level before,
/// taken from the last to the first.
pub open spec fn bf_level<V>(t: Tree<V>, k: nat) -> Seq<Seq<usize>>
    decreases k,
{
    if k == 0 {
        seq![Seq::empty()]
    } else {
        reversed(expand(t, bf_level(t, (k - 1) as nat)))
    }
}

/// The levels above depth `k`, one after the other.
pub open spec fn bf_levels_upto<V>(t: Tree<V>, k: nat) -> Seq<Seq<usize>>
    decreases k,
{
    if k == 0 {
        Seq::empty()
    } else {
        bf_levels_upto(t, (k - 1) as nat) + bf_level(t, (k - 1) as nat)
    }
}

/// The depth of the deepest node of `t`.
pub closed spec fn tree_height<V>(t: Tree<V>) -> nat
    decreases t,
{
    forest_height(t.subtrees@)
}

/// One more than the greatest height among `s`; nothing for no trees.
pub closed spec fn forest_height<V>(s: Seq<Tree<V>>) -> nat
    decreases s,
{
    if s.len() == 0 {
        0
    } else {
        let a = tree_height(s[s.len() - 1]) + 1;
        let b = forest_height(s.subrange(0, s.len() - 1));
        if a > b {
            a
        } else {
            b
        }
    }
}

/// Every node of `t` in the order of the breadth-first walk.
pub open spec fn bf_order<V>(t: Tree<V>) -> Seq<Seq<usize>> {
    bf_levels_upto(t, tree_height(t) + 1)
}

/// The views of a sequence of position vectors.
pub open spec fn positions_view(v: Seq<Vec<usize>>) -> Seq<Seq<usize>> {
    v.map_values(|p: Vec<usize>| p@)
}

proof fn lemma_forest_height_child<V>(s: Seq<Tree<V>>, j: int)
    requires
        0 <= j < s.len(),
    ensures
        tree_height(s[j]) + 1 <= forest_height(s),
    decreases s.len(),
{
    if j < s.len() - 1 {
        lemma_forest_height_child(s.subrange(0, s.len() - 1), j);
    }
}

proof fn lemma_pos_depth<V>(t: Tree<V>, pos: Seq<usize>)
    requires
        node_at_pos(t, pos) is Some,
    ensures
        pos.len() <= tree_height(t),
    decreases pos.len(),
{
    if pos.len() > 0 {
        lemma_pos_depth(t.children()[pos[0] as int], pos.drop_first());
        lemma_forest_height_child(t.children(), pos[0] as int);
    }
}

proof fn lemma_node_at_pos_append<V>(t: Tree<V>, p: Seq<usize>, q: Seq<usize>)
    ensures
        node_at_pos(t, p + q) == match node_at_pos(t, p) {
            Some(n) => node_at_pos(n, q),
            None => None,
        },
    decreases p.len(),
{
    if p.len() == 0 {
        assert(p + q =~= q);
    } else {
        assert((p + q)[0] == p[0]);
        assert((p + q).drop_first() =~= p.drop_first() + q);
        if p[0] < t.children().len() {
            lemma_node_at_pos_append(t.children()[p[0] as int], p.drop_first(), q);
        }
    }
}

proof fn lemma_children_bound<V>(t: Tree<V>)
    ensures
        t.children().len() <= usize::MAX,
{
    assert(t.subtrees.len() == t.subtrees@.len());
}

proof fn lemma_child_position<V>(t: Tree<V>, pos: Seq<usize>, j: int)
    requires
        node_at_pos(t, pos) is Some,
        0 <= j < node_at_pos(t, pos)->Some_0.children().len(),
    ensures
        node_at_pos(t, pos.push(j as usize)) == Some(node_at_pos(t, pos)->Some_0.children()[j]),
{
    let n = node_at_pos(t, pos)->Some_0;
    lemma_children_bound(n);
    let q = seq![j as usize];
    assert(pos.push(j as usize) =~= pos + q);
    lemma_node_at_pos_append(t, pos, q);
    assert(q.drop_first() =~= Seq::<usize>::empty());
    assert(q[0] as int == j);
    assert(node_at_pos(n.children()[j], Seq::<usize>::empty()) == Some(n.children()[j]));
    assert(node_at_pos(n, q) == node_at_pos(n.children()[j], q.drop_first()));
}

proof fn lemma_expand_valid<V>(t: Tree<V>, level: Seq<Seq<usize>>, k: nat)
    requires
        forall|i: int|
            0 <= i < level.len() ==> node_at_pos(t, #[trigger] level[i]) is Some && level[i].len()
                == k,
    ensures
        forall|i: int|
            0 <= i < expand(t, level).len() ==> node_at_pos(t, #[trigger] expand(t, level)[i]) is Some
                && expand(t, level)[i].len() == k + 1,
    decreases level.len(),
{
    if level.len() > 0 {
        let rest = level.drop_last();
        lemma_expand_valid(t, rest, k);
        let e = expand(t, level);
        let a = expand(t, rest);
        let c = child_positions(t, level.last());
        assert(level.last() == level[level.len() - 1]);
        assert forall|i: int| 0 <= i < e.len() implies node_at_pos(t, #[trigger] e[i]) is Some
            && e[i].len() == k + 1 by {
            if i < a.len() {
                assert(e[i] == a[i]);
            } else {
                assert(e[i] == c[i - a.len()]);
                lemma_child_position(t, level.last(), i - a.len());
            }
        }
    }
}

proof fn lemma_level_valid<V>(t: Tree<V>, k: nat)
    ensures
        forall|i: int|
            0 <= i < bf_level(t, k).len() ==> node_at_pos(t, #[trigger] bf_level(t, k)[i]) is Some
                && bf_level(t, k)[i].len() == k,
    decreases k,
{
    if k == 0 {
        assert(bf_level(t, 0)[0] == Seq::<usize>::empty());
    } else {
        let prev = bf_level(t, (k - 1) as nat);
        lemma_level_valid(t, (k - 1) as nat);
        lemma_expand_valid(t, prev, (k - 1) as nat);
        let e = expand(t, prev);
        assert forall|i: int| 0 <= i < bf_level(t, k).len() implies node_at_pos(
            t,
            #[trigger] bf_level(t, k)[i],
        ) is Some && bf_level(t, k)[i].len() == k by {
            assert(bf_level(t, k)[i] == e[e.len() - 1 - i]);
        }
    }
}

proof fn lemma_levels_stay_empty<V>(t: Tree<V>, k: nat, m: nat)
    requires
        bf_level(t, k).len() == 0,
        k <= m,
    ensures
        bf_level(t, m).len() == 0,
        bf_levels_upto(t, m) == bf_levels_upto(t, k),
    decreases m - k,
{
    if k < m {
        lemma_levels_stay_empty(t, k, (m - 1) as nat);
        assert(expand(t, bf_level(t, (m - 1) as nat)) =~= Seq::<Seq<usize>>::empty());
        assert(bf_levels_upto(t, m) =~= bf_levels_upto(t, (m - 1) as nat));
    }
}

proof fn lemma_expand_parents<V>(t: Tree<V>, level: Seq<Seq<usize>>, k: nat)
    requires
        forall|i: int|
            0 <= i < level.len() ==> node_at_pos(t, #[trigger] level[i]) is Some && level[i].len()
                == k,
    ensures
        forall|i: int|
            0 <= i < expand(t, level).len() ==> #[trigger] expand(t, level)[i].len() == k + 1
                && level.contains(expand(t, level)[i].take(k as int)),
    decreases level.len(),
{
    if level.len() > 0 {
        let rest = level.drop_last();
        lemma_expand_parents(t, rest, k);
        let e = expand(t, level);
        let a = expand(t, rest);
        let c = child_positions(t, level.last());
        assert(level.last() == level[level.len() - 1]);
        assert forall|i: int| 0 <= i < e.len() implies #[trigger] e[i].len() == k + 1
            && level.contains(e[i].take(k as int)) by {
            if i < a.len() {
                assert(e[i] == a[i]);
                let m = choose|m: int| 0 <= m < rest.len() && rest[m] == a[i].take(k as int);
                assert(level[m] == rest[m]);
            } else {
                assert(e[i] == c[i - a.len()]);
                assert(e[i].take(k as int) =~= level.last());
                assert(level[level.len() - 1] == level.last());
            }
        }
    }
}

proof fn lemma_expand_distinct<V>(t: Tree<V>, level: Seq<Seq<usize>>, k: nat)
    requires
        forall|i: int|
            0 <= i < level.len() ==> node_at_pos(t, #[trigger] level[i]) is Some && level[i].len()
                == k,
        forall|i: int, j: int| 0 <= i < j < level.len() ==> level[i] != level[j],
    ensures
        forall|i: int, j: int|
            0 <= i < j < expand(t, level).len() ==> expand(t, level)[i] != expand(t, level)[j],
    decreases level.len(),
{
    if level.len() > 0 {
        let rest = level.drop_last();
        let last = level.last();
        assert(last == level[level.len() - 1]);
        lemma_expand_distinct(t, rest, k);
        lemma_expand_parents(t, rest, k);
        let e = expand(t, level);
        let a = expand(t, rest);
        let c = child_positions(t, last);
        let n = node_at_pos(t, last)->Some_0;
        lemma_children_bound(n);
        assert forall|i: int, j: int| 0 <= i < j < e.len() implies e[i] != e[j] by {
            if j < a.len() {
                assert(e[i] == a[i] && e[j] == a[j]);
            } else if i >= a.len() {
                assert(e[i] == c[i - a.len()] && e[j] == c[j - a.len()]);
                assert(e[i][k as int] != e[j][k as int]);
            } else {
                assert(e[i] == a[i] && e[j] == c[j - a.len()]);
                assert(e[j].take(k as int) =~= last);
                if e[i] == e[j] {
                    assert(rest.contains(a[i].take(k as int)));
                    let m = choose|m: int| 0 <= m < rest.len() && rest[m] == a[i].take(k as int);
                    assert(level[m] == rest[m]);
                }
            }
        }
    }
}

proof fn lemma_level_distinct<V>(t: Tree<V>, k: nat)
    ensures
        forall|i: int, j: int|
            0 <= i < j < bf_level(t, k).len() ==> bf_level(t, k)[i] != bf_level(t, k)[j],
    decreases k,
{
    if k > 0 {
        let prev = bf_level(t, (k - 1) as nat);
        lemma_level_distinct(t, (k - 1) as nat);
        lemma_level_valid(t, (k - 1) as nat);
        lemma_expand_distinct(t, prev, (k - 1) as nat);
        let e = expand(t, prev);
        assert forall|i: int, j: int| 0 <= i < j < bf_level(t, k).len() implies bf_level(t, k)[i]
            != bf_level(t, k)[j] by {
            assert(bf_level(t, k)[i] == e[e.len() - 1 - i]);
            assert(bf_level(t, k)[j] == e[e.len() - 1 - j]);
        }
    }
}

proof fn lemma_expand_contains<V>(t: Tree<V>, level: Seq<Seq<usize>>, m: int, j: int)
    requires
        0 <= m < level.len(),
        node_at_pos(t, level[m]) is Some,
        0 <= j < node_at_pos(t, level[m])->Some_0.children().len(),
    ensures
        expand(t, level).contains(level[m].push(j as usize)),
    decreases level.len(),
{
    let rest = level.drop_last();
    let a = expand(t, rest);
    let e = expand(t, level);
    if m == level.len() - 1 {
        let c = child_positions(t, level.last());
        assert(level.last() == level[m]);
        assert(e[a.len() + j] == c[j]);
    } else {
        assert(rest[m] == level[m]);
        lemma_expand_contains(t, rest, m, j);
        let x = choose|x: int| 0 <= x < a.len() && a[x] == level[m].push(j as usize);
        assert(e[x] == a[x]);
    }
}

proof fn lemma_level_complete<V>(t: Tree<V>, p: Seq<usize>)
    requires
        node_at_pos(t, p) is Some,
    ensures
        bf_level(t, p.len()).contains(p),
    decreases p.len(),
{
    if p.len() == 0 {
        assert(bf_level(t, 0)[0] =~= p);
    } else {
        let q = p.drop_last();
        let j = p.last();
        assert(p =~= q + seq![j]);
        lemma_node_at_pos_append(t, q, seq![j]);
        lemma_level_complete(t, q);
        let prev = bf_level(t, q.len());
        let m = choose|m: int| 0 <= m < prev.len() && prev[m] == q;
        let n = node_at_pos(t, q)->Some_0;
        assert(seq![j][0] == j);
        assert(j < n.children().len());
        assert(q.push(j) =~= p);
        lemma_expand_contains(t, prev, m, j as int);
        let e = expand(t, prev);
        let x = choose|x: int| 0 <= x < e.len() && e[x] == p;
        assert(bf_level(t, p.len()) == reversed(e));
        assert(reversed(e)[e.len() - 1 - x] == p);
    }
}

proof fn lemma_upto_facts<V>(t: Tree<V>, k: nat)
    ensures
        forall|i: int|
            0 <= i < bf_levels_upto(t, k).len() ==> node_at_pos(t, #[trigger] bf_levels_upto(t, k)[i])
                is Some && bf_levels_upto(t, k)[i].len() < k,
        forall|i: int, j: int|
            0 <= i < j < bf_levels_upto(t, k).len() ==> bf_levels_upto(t, k)[i].len()
                <= bf_levels_upto(t, k)[j].len() && bf_levels_upto(t, k)[i] != bf_levels_upto(
                t,
                k,
            )[j],
        forall|m: nat, p: Seq<usize>|
            m < k && #[trigger] bf_level(t, m).contains(p) ==> bf_levels_upto(t, k).contains(p),
    decreases k,
{
    if k > 0 {
        let k1 = (k - 1) as nat;
        lemma_upto_facts(t, k1);
        lemma_level_valid(t, k1);
        lemma_level_distinct(t, k1);
        let u = bf_levels_upto(t, k1);
        let l = bf_level(t, k1);
        let w = bf_levels_upto(t, k);
        assert(w == u + l);
        assert forall|i: int| 0 <= i < w.len() implies node_at_pos(t, #[trigger] w[i]) is Some
            && w[i].len() < k by {
            if i < u.len() {
                assert(w[i] == u[i]);
            } else {
                assert(w[i] == l[i - u.len()]);
            }
        }
        assert forall|i: int, j: int| 0 <= i < j < w.len() implies w[i].len() <= w[j].len()
            && w[i] != w[j] by {
            if j < u.len() {
                assert(w[i] == u[i] && w[j] == u[j]);
            } else if i >= u.len() {
                assert(w[i] == l[i - u.len()] && w[j] == l[j - u.len()]);
            } else {
                assert(w[i] == u[i] && w[j] == l[j - u.len()]);
            }
        }
        assert forall|m: nat, p: Seq<usize>| m < k && #[trigger] bf_level(t, m).contains(p) implies w.contains(
            p,
        ) by {
            if m < k1 {
                let x = choose|x: int| 0 <= x < u.len() && u[x] == p;
                assert(w[x] == u[x]);
            } else {
                let x = choose|x: int| 0 <= x < l.len() && l[x] == p;
                assert(w[u.len() + x] == l[x]);
            }
        }
    }
}

/// The breadth-first walk visits every node of the tree exactly once, level
/// by level: each position it hands out leads to a node, no position comes
/// twice, every node's position comes, and no node comes after a deeper one.
pub proof fn lemma_bf_visits_each_node_once<V>(t: Tree<V>)
    ensures
        forall|i: int| 0 <= i < bf_order(t).len() ==> node_at_pos(t, #[trigger] bf_order(t)[i]) is Some,
        forall|i: int, j: int| 0 <= i < j < bf_order(t).len() ==> bf_order(t)[i] != bf_order(t)[j],
        forall|i: int, j: int|
            0 <= i < j < bf_order(t).len() ==> bf_order(t)[i].len() <= bf_order(t)[j].len(),
        forall|p: Seq<usize>| #[trigger] node_at_pos(t, p) is Some ==> bf_order(t).contains(p),
{
    let k = tree_height(t) + 1;
    lemma_upto_facts(t, k);
    assert forall|p: Seq<usize>| #[trigger] node_at_pos(t, p) is Some implies bf_order(t).contains(p) by {
        lemma_pos_depth(t, p);
        lemma_level_complete(t, p);
    }
}

/// A copy of a position vector.
fn copy_positions(p: &Vec<usize>) -> (c: Vec<usize>)
    ensures
        c@ == p@,
{
    let mut c: Vec<usize> = Vec::new();
    let mut i: usize = 0;
    while i < p.len()
        invariant
            i <= p@.len(),
            c@ == p@.take(i as int),
        decreases p@.len() - i,
    {
        c.push(p[i]);
        i = i + 1;
        assert(c@ =~= p@.take(i as int));
    }
    assert(p@.take(p@.len() as int) =~= p@);
    c
}

/// The vectors of `e` from the last to the first.
fn reverse_positions(e: Vec<Vec<usize>>) -> (r: Vec<Vec<usize>>)
    ensures
        positions_view(r@) == reversed(positions_view(e@)),
{
    let ghost e0 = positions_view(e@);
    let mut e = e;
    let mut r: Vec<Vec<usize>> = Vec::new();
    while e.len() > 0
        invariant
            e@.len() <= e0.len(),
            positions_view(e@) == e0.take(e@.len() as int),
            positions_view(r@) == reversed(e0).take(e0.len() - e@.len()),
        decreases e@.len(),
    {
        let ghost before = e@;
        let p = e.pop().unwrap();
        proof {
            assert(p@ == positions_view(before)[before.len() - 1]);
            assert(positions_view(before)[before.len() - 1] == e0[before.len() - 1]);
        }
        let ghost old_r = r@;
        r.push(p);
        assert(positions_view(r@) =~= positions_view(old_r).push(p@));
        assert(positions_view(e@) =~= e0.take(e@.len() as int));
        assert(positions_view(r@) =~= reversed(e0).take(e0.len() - e@.len()));
    }
    assert(positions_view(r@) =~= reversed(e0));
    r
}

/// A walk over the nodes of a tree, breadth first: the root, then the nodes
/// one level below it, and so on.  It hands out each node's position, the
/// child indices that lead to it, with which the node can then be reached,
/// read and changed.
pub struct IterMutBF {
    order: Vec<Vec<usize>>,
    next: usize,
}

impl IterMutBF {
    /// The positions of all the nodes, in the order the walk visits them.
    pub closed spec fn order(&self) -> Seq<Seq<usize>> {
        positions_view(self.order@)
    }

    /// How many nodes the walk has handed out.
    pub closed spec fn visited(&self) -> nat {
        self.next as nat
    }

    /// The position of the next node, if any is left.
    pub fn next(&mut self) -> (r: Option<Vec<usize>>)
        ensures
            final(self).order() == old(self).order(),
            old(self).visited() < old(self).order().len() ==> (r matches Some(p) && p@ == old(
                self,
            ).order()[old(self).visited() as int] && final(self).visited() == old(self).visited()
                + 1),
            old(self).visited() >= old(self).order().len() ==> r is None && final(self).visited()
                == old(self).visited(),
    {
        if self.next < self.order.len() {
            let p = copy_positions(&self.order[self.next]);
            self.next = self.next + 1;
            Some(p)
        } else {
            None
        }
    }
}

impl<V> Tree<V> {
    /// The node's key.
    pub fn key(&self) -> (k: &String)
        ensures
            k@ == self.spec_key(),
    {
        &self.key
    }

    fn node_at_pos_from(&self, pos: &Vec<usize>, i: usize) -> (r: &Tree<V>)
        requires
            i <= pos@.len(),
            node_at_pos(*self, pos@.skip(i as int)) is Some,
        ensures
            node_at_pos(*self, pos@.skip(i as int)) == Some(*r),
        decreases pos@.len() - i,
    {
        if i == pos.len() {
            return self;
        }
        proof {
            assert(pos@.skip(i as int)[0] == pos@[i as int]);
            assert(pos@.skip(i + 1) =~= pos@.skip(i as int).drop_first());
        }
        self.subtrees[pos[i]].node_at_pos_from(pos, i + 1)
    }

    fn node_at_mut_from(&mut self, pos: &Vec<usize>, i: usize) -> (r: &mut Tree<V>)
        requires
            i <= pos@.len(),
            node_at_pos(*old(self), pos@.skip(i as int)) is Some,
        ensures
            node_at_pos(*old(self), pos@.skip(i as int)) == Some(*r),
            replaced_at(*old(self), *final(self), pos@.skip(i as int), *final(r)),
        decreases pos@.len() - i,
    {
        if i == pos.len() {
            return self;
        }
        proof {
            assert(pos@.skip(i as int)[0] == pos@[i as int]);
            assert(pos@.skip(i + 1) =~= pos@.skip(i as int).drop_first());
        }
        let j = pos[i];
        let c = self.child_mut(j);
        c.node_at_mut_from(pos, i + 1)
    }

    /// The node at the position `pos`, as the breadth-first walk hands it
    /// out, to be read or changed.
    pub fn node_at_mut(&mut self, pos: &Vec<usize>) -> (r: &mut Tree<V>)
        requires
            node_at_pos(*old(self), pos@) is Some,
        ensures
            node_at_pos(*old(self), pos@) == Some(*r),
            replaced_at(*old(self), *final(self), pos@, *final(r)),
    {
        assert(pos@.skip(0) =~= pos@);
        self.node_at_mut_from(pos, 0)
    }

    /// The positions of the children of each node of `level`, one node
    /// after the other.
    fn expand_level(&self, level: &Vec<Vec<usize>>) -> (e: Vec<Vec<usize>>)
        requires
            forall|k: int| 0 <= k < level@.len() ==> node_at_pos(*self, #[trigger] level@[k]@) is Some,
        ensures
            positions_view(e@) == expand(*self, positions_view(level@)),
    {
        let ghost lv = positions_view(level@);
        let mut e: Vec<Vec<usize>> = Vec::new();
        let mut i: usize = 0;
        while i < level.len()
            invariant
                i <= level@.len(),
                lv == positions_view(level@),
                forall|k: int| 0 <= k < level@.len() ==> node_at_pos(*self, #[trigger] level@[k]@) is Some,
                positions_view(e@) == expand(*self, lv.take(i as int)),
            decreases level@.len() - i,
        {
            assert(level@[i as int]@.skip(0) =~= level@[i as int]@);
            let node = self.node_at_pos_from(&level[i], 0);
            let ghost before = positions_view(e@);
            let ghost here = level@[i as int]@;
            let mut j: usize = 0;
            while j < node.subtrees.len()
                invariant
                    j <= node.subtrees@.len(),
                    i < level@.len(),
                    here == level@[i as int]@,
                    positions_view(e@) == before + Seq::new(j as nat, |m: int| here.push(m as usize)),
                decreases node.subtrees@.len() - j,
            {
                let mut q = copy_positions(&level[i]);
                q.push(j);
                let ghost prev = e@;
                e.push(q);
                assert(e@ == prev.push(q));
                assert(q@ == here.push(j));
                assert(positions_view(e@) =~= positions_view(prev).push(q@));
                j = j + 1;
                assert(positions_view(e@) =~= before + Seq::new(
                    j as nat,
                    |m: int| here.push(m as usize),
                ));
            }
            proof {
                assert(lv.take(i + 1).drop_last() =~= lv.take(i as int));
                assert(lv.take(i + 1).last() == here);
                assert(child_positions(*self, here) =~= Seq::new(
                    node.children().len(),
                    |m: int| here.push(m as usize),
                ));
            }
            i = i + 1;
        }
        assert(lv.take(level@.len() as int) =~= lv);
        e
    }

    /// A walk over this tree's nodes, breadth first: the root; then, level
    /// by level, the children of the nodes of the level before, the last
    /// node's children first and each node's children from the last to the
    /// first.
    pub fn iter_mut_bf(&self) -> (it: IterMutBF)
        ensures
            it.order() == bf_order(*self),
            it.visited() == 0,
    {
        let mut order: Vec<Vec<usize>> = Vec::new();
        let mut level: Vec<Vec<usize>> = Vec::new();
        level.push(Vec::new());
        let ghost mut k: nat = 0;
        proof {
            assert(positions_view(level@) =~= bf_level(*self, 0));
            assert(positions_view(order@) =~= bf_levels_upto(*self, 0));
        }
        while level.len() > 0
            invariant
                k <= tree_height(*self) + 1,
                positions_view(level@) == bf_level(*self, k),
                positions_view(order@) == bf_levels_upto(*self, k),
            decreases tree_height(*self) + 1 - k,
        {
            proof {
                lemma_level_valid(*self, k);
                lemma_pos_depth(*self, bf_level(*self, k)[0]);
                assert forall|m: int| 0 <= m < level@.len() implies node_at_pos(
                    *self,
                    #[trigger] level@[m]@,
                ) is Some by {
                    assert(level@[m]@ == bf_level(*self, k)[m]);
                }
            }
            let e = self.expand_level(&level);
            let next = reverse_positions(e);
            let ghost lv = positions_view(level@);
            let ghost ov = positions_view(order@);
            order.append(&mut level);
            level = next;
            proof {
                assert(positions_view(order@) =~= ov + lv);
                k = k + 1;
            }
        }
        proof {
            lemma_levels_stay_empty(*self, k, tree_height(*self) + 1);
        }
        IterMutBF { order, next: 0 }
    }
}

} // verus!

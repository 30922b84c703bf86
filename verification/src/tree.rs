//! A directory tree as plain values, and the order in which its entries are
//! visited.

use vstd::prelude::*;
use vstd::utf8::encode_utf8;

verus! {

/// What an entry of a tree is.
#[derive(Clone, Copy, Debug, PartialEq, Eq, Structural)]
pub enum EntryKind {
    /// A regular file; its content counts.
    File,
    /// A directory; only its path counts.
    Directory,
    /// Anything else (a socket, a dangling link): it is carried, and ignored.
    Other,
}

/// One entry of a directory tree: its path relative to the root of the tree,
/// what it is, what it holds and the attributes it is stored with.
#[derive(Debug)]
pub struct TreeEntry {
    pub path: String,
    pub kind: EntryKind,
    pub content: Vec<u8>,
    pub mode: u32,
    pub mtime: u64,
    pub uid: u64,
    pub gid: u64,
}

/// The mathematical value of a [`TreeEntry`].
pub ghost struct EntryView {
    pub path: Seq<char>,
    pub kind: EntryKind,
    pub content: Seq<u8>,
    pub mode: u32,
    pub mtime: u64,
    pub uid: u64,
    pub gid: u64,
}

impl View for TreeEntry {
    type V = EntryView;

    open spec fn view(&self) -> EntryView {
        EntryView {
            path: self.path@,
            kind: self.kind,
            content: self.content@,
            mode: self.mode,
            mtime: self.mtime,
            uid: self.uid,
            gid: self.gid,
        }
    }
}

impl Clone for TreeEntry {
    fn clone(&self) -> (r: Self)
        ensures
            r@ == self@,
    {
        TreeEntry {
            path: self.path.clone(),
            kind: self.kind,
            content: self.content.clone(),
            mode: self.mode,
            mtime: self.mtime,
            uid: self.uid,
            gid: self.gid,
        }
    }
}

impl TreeEntry {
    /// A regular file with the attributes of a freshly written one.
    pub fn file(path: String, content: Vec<u8>) -> (r: Self)
        ensures
            r@ == (EntryView {
                path: path@,
                kind: EntryKind::File,
                content: content@,
                mode: 0o644,
                mtime: 0,
                uid: 0,
                gid: 0,
            }),
    {
        TreeEntry { path, kind: EntryKind::File, content, mode: 0o644, mtime: 0, uid: 0, gid: 0 }
    }

    /// A directory with the attributes of a freshly made one.
    pub fn directory(path: String) -> (r: Self)
        ensures
            r@ == (EntryView {
                path: path@,
                kind: EntryKind::Directory,
                content: Seq::<u8>::empty(),
                mode: 0o755,
                mtime: 0,
                uid: 0,
                gid: 0,
            }),
    {
        TreeEntry {
            path,
            kind: EntryKind::Directory,
            content: Vec::new(),
            mode: 0o755,
            mtime: 0,
            uid: 0,
            gid: 0,
        }
    }
}

/// The value of a list of entries.
pub open spec fn tree_view(entries: Seq<TreeEntry>) -> Seq<EntryView> {
    Seq::new(entries.len(), |i: int| entries[i]@)
}

/// The bytes of an entry's path: what entries are ordered by, and what the
/// checksum absorbs of the path.
pub open spec fn key(e: EntryView) -> Seq<u8> {
    encode_utf8(e.path)
}

/// The keys of a tree, entry by entry.
pub open spec fn keys_of(tree: Seq<EntryView>) -> Seq<Seq<u8>> {
    Seq::new(tree.len(), |i: int| key(tree[i]))
}

/// No two entries of the tree have the same path.
pub open spec fn distinct_paths(tree: Seq<EntryView>) -> bool {
    forall|i: int, j: int|
        0 <= i < tree.len() && 0 <= j < tree.len() && i != j ==> key(#[trigger] tree[i]) != key(
            #[trigger] tree[j],
        )
}

/// The weight of a byte in the order of paths. The separator weighs less than
/// every other byte, so that a directory comes before whatever lies beside it
/// under a longer name, and paths compare as their lists of components do.
pub open spec fn rank(b: u8) -> int {
    if b == 0x2f {
        -1
    } else {
        b as int
    }
}

/// Path `a` comes strictly before path `b`.
pub open spec fn precedes(a: Seq<u8>, b: Seq<u8>) -> bool
    decreases a.len(),
{
    if b.len() == 0 {
        false
    } else if a.len() == 0 {
        true
    } else if a[0] != b[0] {
        rank(a[0]) < rank(b[0])
    } else {
        precedes(a.skip(1), b.skip(1))
    }
}

/// No path comes before itself.
pub proof fn lemma_precedes_irreflexive(a: Seq<u8>)
    ensures
        !precedes(a, a),
    decreases a.len(),
{
    if a.len() > 0 {
        lemma_precedes_irreflexive(a.skip(1));
    }
}

/// Of two different paths exactly one comes before the other.
pub proof fn lemma_precedes_total(a: Seq<u8>, b: Seq<u8>)
    ensures
        a != b ==> (precedes(a, b) <==> !precedes(b, a)),
        a == b ==> !precedes(a, b),
    decreases a.len(),
{
    if a == b {
        lemma_precedes_irreflexive(a);
    } else if a.len() > 0 && b.len() > 0 && a[0] == b[0] {
        lemma_precedes_total(a.skip(1), b.skip(1));
        if a.skip(1) == b.skip(1) {
            assert(a =~= seq![a[0]] + a.skip(1));
            assert(b =~= seq![b[0]] + b.skip(1));
        }
    } else if a.len() == 0 {
        assert(b.len() > 0) by {
            if b.len() == 0 {
                assert(a =~= b);
            }
        }
    }
}

/// The order of paths is transitive.
pub proof fn lemma_precedes_transitive(a: Seq<u8>, b: Seq<u8>, c: Seq<u8>)
    requires
        precedes(a, b),
        precedes(b, c),
    ensures
        precedes(a, c),
    decreases a.len(),
{
    if a.len() > 0 && b.len() > 0 && c.len() > 0 {
        if a[0] == b[0] && b[0] == c[0] {
            lemma_precedes_transitive(a.skip(1), b.skip(1), c.skip(1));
        }
    }
}

/// What comes before a path comes before every path that does not come
/// before that one.
pub proof fn lemma_precedes_then_not_after(n: Seq<u8>, a: Seq<u8>, b: Seq<u8>)
    requires
        precedes(n, a),
        !precedes(b, a),
    ensures
        precedes(n, b),
{
    lemma_precedes_total(a, b);
    if a != b {
        lemma_precedes_transitive(n, a, b);
    }
}

/// The positions `order`, with position `k` put in behind every position
/// whose path does not come after that of `k`.
pub open spec fn insert_index(order: Seq<int>, keys: Seq<Seq<u8>>, k: int) -> Seq<int>
    decreases order.len(),
{
    if order.len() > 0 && precedes(keys[k], keys[order.last()]) {
        insert_index(order.drop_last(), keys, k).push(order.last())
    } else {
        order.push(k)
    }
}

/// The first `n` positions of a tree in ascending order of their paths;
/// positions with equal paths keep the order they came in.
pub open spec fn path_order(keys: Seq<Seq<u8>>, n: nat) -> Seq<int>
    decreases n,
{
    if n == 0 {
        Seq::empty()
    } else {
        insert_index(path_order(keys, (n - 1) as nat), keys, n - 1)
    }
}

/// The entries at the given positions.
pub open spec fn pick(tree: Seq<EntryView>, order: Seq<int>) -> Seq<EntryView> {
    Seq::new(order.len(), |j: int| tree[order[j]])
}

/// The tree in ascending order of its paths.
pub open spec fn sorted_tree(tree: Seq<EntryView>) -> Seq<EntryView> {
    pick(tree, path_order(keys_of(tree), tree.len()))
}

/// `order` holds each of the positions `0..n` once.
pub open spec fn is_arrangement(order: Seq<int>, n: int) -> bool {
    &&& order.len() == n
    &&& forall|j: int| 0 <= j < order.len() ==> 0 <= #[trigger] order[j] < n
    &&& forall|i: int, j: int|
        0 <= i < order.len() && 0 <= j < order.len() && i != j ==> #[trigger] order[i]
            != #[trigger] order[j]
    &&& forall|p: int| 0 <= p < n ==> #[trigger] order.contains(p)
}

/// The paths at the positions of `order` never go down.
pub open spec fn ascending(order: Seq<int>, keys: Seq<Seq<u8>>) -> bool {
    forall|i: int, j: int|
        0 <= i < j < order.len() ==> !precedes(keys[#[trigger] order[j]], keys[#[trigger] order[i]])
}

/// Where `insert_index` puts the new position: behind `order[at - 1]`, before
/// `order[at]`.
pub proof fn lemma_insert_index_at(order: Seq<int>, keys: Seq<Seq<u8>>, k: int, at: int)
    requires
        0 <= at <= order.len(),
        forall|i: int| at <= i < order.len() ==> precedes(keys[k], keys[#[trigger] order[i]]),
        at > 0 ==> !precedes(keys[k], keys[order[at - 1]]),
    ensures
        insert_index(order, keys, k) == order.insert(at, k),
    decreases order.len() - at,
{
    if at == order.len() {
        assert(order.insert(at, k) =~= order.push(k));
    } else {
        let front = order.drop_last();
        assert(precedes(keys[k], keys[order.last()]));
        assert forall|i: int| at <= i < front.len() implies precedes(
            keys[k],
            keys[#[trigger] front[i]],
        ) by {
            assert(front[i] == order[i]);
        }
        lemma_insert_index_at(front, keys, k, at);
        assert(front.insert(at, k).push(order.last()) =~= order.insert(at, k));
    }
}

/// Some position `at` is where `insert_index` puts the new position, and the
/// order stays ascending.
pub proof fn lemma_insert_index_shape(order: Seq<int>, keys: Seq<Seq<u8>>, k: int) -> (at: int)
    requires
        ascending(order, keys),
    ensures
        0 <= at <= order.len(),
        insert_index(order, keys, k) == order.insert(at, k),
        forall|i: int| at <= i < order.len() ==> precedes(keys[k], keys[#[trigger] order[i]]),
        forall|i: int| 0 <= i < at ==> !precedes(keys[k], keys[#[trigger] order[i]]),
        ascending(order.insert(at, k), keys),
    decreases order.len(),
{
    let at = if order.len() > 0 && precedes(keys[k], keys[order.last()]) {
        let front = order.drop_last();
        assert forall|i: int, j: int| 0 <= i < j < front.len() implies !precedes(
            keys[#[trigger] front[j]],
            keys[#[trigger] front[i]],
        ) by {
            assert(front[i] == order[i] && front[j] == order[j]);
        }
        let at = lemma_insert_index_shape(front, keys, k);
        assert(front.insert(at, k).push(order.last()) =~= order.insert(at, k));
        assert forall|i: int| at <= i < order.len() implies precedes(
            keys[k],
            keys[#[trigger] order[i]],
        ) by {
            if i < front.len() {
                assert(front[i] == order[i]);
            }
        }
        assert forall|i: int| 0 <= i < at implies !precedes(keys[k], keys[#[trigger] order[i]]) by {
            assert(front[i] == order[i]);
        }
        at
    } else {
        assert(order.insert(order.len() as int, k) =~= order.push(k));
        assert forall|i: int| 0 <= i < order.len() implies !precedes(
            keys[k],
            keys[#[trigger] order[i]],
        ) by {
            if precedes(keys[k], keys[order[i]]) {
                // then the last position, which does not come before `i`,
                // would come after `k` too
                let last = order.len() - 1;
                if i < last {
                    assert(!precedes(keys[order[last]], keys[order[i]]));
                    lemma_precedes_total(keys[order[last]], keys[order[i]]);
                    if keys[order[last]] == keys[order[i]] {
                    } else {
                        lemma_precedes_transitive(keys[k], keys[order[i]], keys[order[last]]);
                    }
                }
            }
        }
        order.len() as int
    };
    let next = order.insert(at, k);
    assert forall|i: int, j: int| 0 <= i < j < next.len() implies !precedes(
        keys[#[trigger] next[j]],
        keys[#[trigger] next[i]],
    ) by {
        if j == at {
            // next[j] is k, next[i] = order[i] with i < at
            assert(next[i] == order[i]);
        } else if i == at {
            // next[i] is k, next[j] = order[j - 1] with j - 1 >= at
            assert(next[j] == order[j - 1]);
            assert(precedes(keys[k], keys[order[j - 1]]));
            lemma_precedes_total(keys[k], keys[order[j - 1]]);
        } else {
            let oi = if i < at { i } else { i - 1 };
            let oj = if j < at { j } else { j - 1 };
            assert(next[i] == order[oi] && next[j] == order[oj]);
        }
    }
    at
}

/// `path_order` arranges the first `n` positions, in ascending order of paths.
pub proof fn lemma_path_order(keys: Seq<Seq<u8>>, n: nat)
    ensures
        is_arrangement(path_order(keys, n), n as int),
        ascending(path_order(keys, n), keys),
    decreases n,
{
    if n > 0 {
        let before = path_order(keys, (n - 1) as nat);
        lemma_path_order(keys, (n - 1) as nat);
        let at = lemma_insert_index_shape(before, keys, n - 1);
        let next = before.insert(at, n - 1);
        assert forall|j: int| 0 <= j < next.len() implies 0 <= #[trigger] next[j] < n by {
            if j < at {
                assert(next[j] == before[j]);
            } else if j > at {
                assert(next[j] == before[j - 1]);
            }
        }
        assert forall|i: int, j: int|
            0 <= i < next.len() && 0 <= j < next.len() && i != j implies #[trigger] next[i]
            != #[trigger] next[j] by {
            let oi = if i < at { i } else { i - 1 };
            let oj = if j < at { j } else { j - 1 };
            if i != at {
                assert(next[i] == before[oi]);
            }
            if j != at {
                assert(next[j] == before[oj]);
            }
        }
        assert forall|p: int| 0 <= p < n implies #[trigger] next.contains(p) by {
            if p == n - 1 {
                assert(next[at] == p);
            } else {
                assert(before.contains(p));
                let j0 = choose|j: int| 0 <= j < before.len() && before[j] == p;
                let j1 = if j0 < at { j0 } else { j0 + 1 };
                assert(next[j1] == before[j0]);
            }
        }
    }
}

/// Whether path `a` comes strictly before path `b`.
pub fn path_before(a: &[u8], b: &[u8]) -> (r: bool)
    ensures
        r == precedes(a@, b@),
{
    let mut i: usize = 0;
    assert(a@.skip(0) =~= a@ && b@.skip(0) =~= b@);
    loop
        invariant
            i <= a.len(),
            i <= b.len(),
            precedes(a@, b@) == precedes(a@.skip(i as int), b@.skip(i as int)),
        decreases a.len() - i,
    {
        if i == b.len() {
            return false;
        }
        if i == a.len() {
            return true;
        }
        let x = a[i];
        let y = b[i];
        proof {
            assert(a@.skip(i as int)[0] == x);
            assert(b@.skip(i as int)[0] == y);
            assert(a@.skip(i as int).skip(1) =~= a@.skip(i + 1));
            assert(b@.skip(i as int).skip(1) =~= b@.skip(i + 1));
        }
        if x != y {
            if x == 0x2f {
                return true;
            }
            if y == 0x2f {
                return false;
            }
            return x < y;
        }
        i += 1;
    }
}

/// The positions of the entries in ascending order of their paths.
pub fn sort_by_path(entries: &Vec<TreeEntry>) -> (order: Vec<usize>)
    ensures
        order@.len() == entries@.len(),
        forall|j: int| 0 <= j < order@.len() ==> #[trigger] order@[j] < entries@.len(),
        order@.map_values(|p: usize| p as int) == path_order(
            keys_of(tree_view(entries@)),
            entries@.len(),
        ),
{
    let ghost keys = keys_of(tree_view(entries@));
    let mut order: Vec<usize> = Vec::new();
    let mut k: usize = 0;
    while k < entries.len()
        invariant
            k <= entries.len(),
            keys == keys_of(tree_view(entries@)),
            order@.len() == k,
            forall|j: int| 0 <= j < order@.len() ==> #[trigger] order@[j] < k,
            order@.map_values(|p: usize| p as int) == path_order(keys, k as nat),
        decreases entries.len() - k,
    {
        let ghost before = order@.map_values(|p: usize| p as int);
        let new_key = entries[k].path.as_str().as_bytes();
        proof {
            lemma_path_order(keys, k as nat);
        }
        // the place behind the last path that does not come after the new one
        let mut lo: usize = 0;
        let mut hi: usize = order.len();
        while lo < hi
            invariant
                lo <= hi <= order@.len(),
                k < entries.len(),
                keys == keys_of(tree_view(entries@)),
                new_key@ == keys[k as int],
                before == order@.map_values(|p: usize| p as int),
                ascending(before, keys),
                forall|j: int| 0 <= j < order@.len() ==> #[trigger] order@[j] < k,
                forall|i: int| 0 <= i < lo ==> !precedes(keys[k as int], keys[#[trigger] before[i]]),
                forall|i: int|
                    hi <= i < before.len() ==> precedes(keys[k as int], keys[#[trigger] before[i]]),
            decreases hi - lo,
        {
            let mid = lo + (hi - lo) / 2;
            let p = order[mid];
            proof {
                assert(before[mid as int] == p as int);
                assert(keys[p as int] == key(tree_view(entries@)[p as int]));
            }
            if path_before(new_key, entries[p].path.as_str().as_bytes()) {
                assert forall|i: int| mid <= i < before.len() implies precedes(
                    keys[k as int],
                    keys[#[trigger] before[i]],
                ) by {
                    if i > mid {
                        assert(!precedes(keys[before[i]], keys[before[mid as int]]));
                        lemma_precedes_then_not_after(
                            keys[k as int],
                            keys[before[mid as int]],
                            keys[before[i]],
                        );
                    }
                }
                hi = mid;
            } else {
                assert forall|i: int| 0 <= i < mid + 1 implies !precedes(
                    keys[k as int],
                    keys[#[trigger] before[i]],
                ) by {
                    if i < mid && precedes(keys[k as int], keys[before[i]]) {
                        assert(!precedes(keys[before[mid as int]], keys[before[i]]));
                        lemma_precedes_then_not_after(
                            keys[k as int],
                            keys[before[i]],
                            keys[before[mid as int]],
                        );
                    }
                }
                lo = mid + 1;
            }
        }
        let at = lo;
        proof {
            lemma_insert_index_at(before, keys, k as int, at as int);
        }
        order.insert(at, k);
        assert(order@.map_values(|p: usize| p as int) =~= before.insert(at as int, k as int));
        k += 1;
    }
    order
}

} // verus!

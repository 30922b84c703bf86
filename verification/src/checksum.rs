//! The checksum of a directory tree: one SHA-256 digest over the paths and
//! the file contents of the tree, taken in ascending order of the paths.

use vstd::prelude::*;
use crate::tree::{
    distinct_paths, key, keys_of, lemma_insert_index_shape, lemma_path_order,
    lemma_precedes_irreflexive, lemma_precedes_total, path_order, pick, precedes, sort_by_path,
    sorted_tree, tree_view, EntryKind, EntryView, TreeEntry,
};

verus! {

/// The SHA-256 digest of a byte string.
pub uninterp spec fn sha256_digest(data: Seq<u8>) -> Seq<u8>;

/// A digest in the making. It holds the bytes absorbed so far.
#[verifier::external_body]
pub struct Digest {
    inner: sha2::Sha256,
}

/// The bytes that a digest in the making has absorbed, in the order they
/// came.
pub uninterp spec fn absorbed(d: Digest) -> Seq<u8>;

/// `sha2::Sha256::new`, taken on trust: the new digest has absorbed nothing.
#[verifier::external_body]
fn sha256_new() -> (d: Digest)
    ensures
        absorbed(d) == Seq::<u8>::empty(),
{
    Digest { inner: <sha2::Sha256 as sha2::Digest>::new() }
}

/// `sha2::Sha256::update`, taken on trust: the digest has absorbed the bytes
/// given, behind those it had.
#[verifier::external_body]
fn sha256_update(d: &mut Digest, data: &[u8])
    ensures
        absorbed(*final(d)) == absorbed(*old(d)) + data@,
{
    sha2::Digest::update(&mut d.inner, data)
}

/// `sha2::Sha256::finalize`, taken on trust: what it returns is the SHA-256
/// digest of the bytes absorbed, and has 32 bytes.
#[verifier::external_body]
fn sha256_finalize(d: Digest) -> (digest: Vec<u8>)
    ensures
        digest@ == sha256_digest(absorbed(d)),
        digest@.len() == 32,
{
    sha2::Digest::finalize(d.inner).to_vec()
}

/// The sixteen digits of lower-case hexadecimal.
pub open spec fn hex_digit(n: int) -> char {
    seq!['0', '1', '2', '3', '4', '5', '6', '7', '8', '9', 'a', 'b', 'c', 'd', 'e', 'f'][n]
}

/// The bytes written out in lower-case hexadecimal, two digits for each.
pub open spec fn hex_text(bytes: Seq<u8>) -> Seq<char>
    decreases bytes.len(),
{
    if bytes.len() == 0 {
        Seq::empty()
    } else {
        hex_text(bytes.drop_last()) + seq![
            hex_digit(bytes.last() as int / 16),
            hex_digit(bytes.last() as int % 16),
        ]
    }
}

/// What the checksum absorbs of one entry: its path, and of a file its
/// content behind the path. The root, whose path is empty, adds nothing.
pub open spec fn entry_stream(e: EntryView) -> Seq<u8> {
    match e.kind {
        EntryKind::File => key(e) + e.content,
        _ => key(e),
    }
}

/// The path of an entry that is not the root has bytes.
pub proof fn lemma_key_of_path(e: EntryView)
    ensures
        e.path.len() > 0 ==> key(e).len() > 0,
        e.path.len() > 0 ==> entry_stream(e).len() > 0,
        e.path.len() == 0 ==> key(e).len() == 0,
{
    if e.path.len() > 0 {
        let first = vstd::utf8::encode_scalar(e.path[0] as u32);
        assert(first.len() > 0);
        assert(key(e) == first + vstd::utf8::encode_utf8(e.path.drop_first()));
    }
}

/// What the checksum absorbs of a list of entries, taken as they stand.
pub open spec fn stream_of(entries: Seq<EntryView>) -> Seq<u8>
    decreases entries.len(),
{
    if entries.len() == 0 {
        Seq::empty()
    } else {
        stream_of(entries.drop_last()) + entry_stream(entries.last())
    }
}

/// The bytes that the checksum of a tree is taken of.
pub open spec fn checksum_stream(tree: Seq<EntryView>) -> Seq<u8> {
    stream_of(sorted_tree(tree))
}

/// The checksum of a tree: the digest of its stream, in hexadecimal.
pub open spec fn checksum_text(tree: Seq<EntryView>) -> Seq<char> {
    hex_text(sha256_digest(checksum_stream(tree)))
}

/// The entries of a list never go down in path, and no path stands twice.
pub open spec fn strictly_ascending(s: Seq<EntryView>) -> bool {
    forall|i: int, j: int| 0 <= i < j < s.len() ==> precedes(key(#[trigger] s[i]), key(#[trigger] s[j]))
}

/// Two lists hold the same entries.
pub open spec fn same_entries(a: Seq<EntryView>, b: Seq<EntryView>) -> bool {
    forall|e: EntryView| a.contains(e) <==> b.contains(e)
}

/// The stream of two lists, one behind the other, is their two streams, one
/// behind the other.
pub proof fn lemma_stream_of_concat(a: Seq<EntryView>, b: Seq<EntryView>)
    ensures
        stream_of(a + b) == stream_of(a) + stream_of(b),
    decreases b.len(),
{
    if b.len() == 0 {
        assert(a + b =~= a);
    } else {
        lemma_stream_of_concat(a, b.drop_last());
        assert((a + b).drop_last() =~= a + b.drop_last());
        assert((a + b).last() == b.last());
        assert(stream_of(a + b) =~= stream_of(a) + stream_of(b));
    }
}

/// A sorted tree holds the entries of the tree, each path once where the tree
/// has each path once.
pub proof fn lemma_sorted_tree(tree: Seq<EntryView>)
    ensures
        sorted_tree(tree).len() == tree.len(),
        same_entries(sorted_tree(tree), tree),
        distinct_paths(tree) ==> strictly_ascending(sorted_tree(tree)),
{
    let keys = keys_of(tree);
    let order = path_order(keys, tree.len());
    let sorted = sorted_tree(tree);
    lemma_path_order(keys, tree.len());
    assert forall|e: EntryView| sorted.contains(e) <==> tree.contains(e) by {
        if sorted.contains(e) {
            let j = choose|j: int| 0 <= j < sorted.len() && sorted[j] == e;
            assert(tree[order[j]] == e);
        }
        if tree.contains(e) {
            let p = choose|p: int| 0 <= p < tree.len() && tree[p] == e;
            assert(order.contains(p));
            let j = choose|j: int| 0 <= j < order.len() && order[j] == p;
            assert(sorted[j] == e);
        }
    }
    if distinct_paths(tree) {
        assert forall|i: int, j: int| 0 <= i < j < sorted.len() implies precedes(
            key(#[trigger] sorted[i]),
            key(#[trigger] sorted[j]),
        ) by {
            assert(!precedes(keys[order[j]], keys[order[i]]));
            assert(order[i] != order[j]);
            assert(key(tree[order[i]]) != key(tree[order[j]]));
            lemma_precedes_total(key(sorted[i]), key(sorted[j]));
        }
    }
}

/// Two lists that hold the same entries, each in strictly ascending order of
/// the paths, are one list.
pub proof fn lemma_ascending_unique(x: Seq<EntryView>, y: Seq<EntryView>)
    requires
        strictly_ascending(x),
        strictly_ascending(y),
        same_entries(x, y),
    ensures
        x == y,
    decreases x.len(),
{
    if x.len() == 0 {
        if y.len() > 0 {
            assert(y.contains(y[0]));
        }
        assert(x =~= y);
    } else {
        let xl = x.last();
        assert(x.contains(xl));
        assert(y.contains(xl));
        let yl = y.last();
        assert(y.contains(yl));
        assert(x.contains(yl));
        let j = choose|j: int| 0 <= j < y.len() && y[j] == xl;
        let i = choose|i: int| 0 <= i < x.len() && x[i] == yl;
        lemma_precedes_total(key(xl), key(yl));
        assert(xl == yl);
        let xf = x.drop_last();
        let yf = y.drop_last();
        assert forall|e: EntryView| xf.contains(e) <==> yf.contains(e) by {
            lemma_precedes_irreflexive(key(e));
            if xf.contains(e) {
                let p = choose|p: int| 0 <= p < xf.len() && xf[p] == e;
                assert(x[p] == e);
                assert(x.contains(e));
                let q = choose|q: int| 0 <= q < y.len() && y[q] == e;
                assert(precedes(key(x[p]), key(x[x.len() - 1])));
                assert(q < y.len() - 1);
                assert(yf[q] == e);
            }
            if yf.contains(e) {
                let p = choose|p: int| 0 <= p < yf.len() && yf[p] == e;
                assert(y[p] == e);
                assert(y.contains(e));
                let q = choose|q: int| 0 <= q < x.len() && x[q] == e;
                assert(precedes(key(y[p]), key(y[y.len() - 1])));
                assert(q < x.len() - 1);
                assert(xf[q] == e);
            }
        }
        assert forall|i: int, j: int| 0 <= i < j < xf.len() implies precedes(
            key(#[trigger] xf[i]),
            key(#[trigger] xf[j]),
        ) by {
            assert(xf[i] == x[i] && xf[j] == x[j]);
        }
        assert forall|i: int, j: int| 0 <= i < j < yf.len() implies precedes(
            key(#[trigger] yf[i]),
            key(#[trigger] yf[j]),
        ) by {
            assert(yf[i] == y[i] && yf[j] == y[j]);
        }
        lemma_ascending_unique(xf, yf);
        assert(x =~= xf.push(xl));
        assert(y =~= yf.push(yl));
    }
}

/// Two lists of the same entries, each path standing once, come out as one
/// list when they are put in order.
pub proof fn lemma_same_entries_same_order(a: Seq<EntryView>, b: Seq<EntryView>)
    requires
        distinct_paths(a),
        distinct_paths(b),
        same_entries(a, b),
    ensures
        sorted_tree(a) == sorted_tree(b),
        checksum_stream(a) == checksum_stream(b),
        checksum_text(a) == checksum_text(b),
{
    lemma_sorted_tree(a);
    lemma_sorted_tree(b);
    lemma_ascending_unique(sorted_tree(a), sorted_tree(b));
}

/// What the checksum looks at of an entry: its path, its kind and its
/// content, not its mode, its time or its owners.
pub open spec fn face(e: EntryView) -> EntryView {
    EntryView { path: e.path, kind: e.kind, content: e.content, mode: 0, mtime: 0, uid: 0, gid: 0 }
}

/// What the checksum looks at of each entry of a list.
pub open spec fn faces(entries: Seq<EntryView>) -> Seq<EntryView> {
    Seq::new(entries.len(), |i: int| face(entries[i]))
}

/// The stream of a list is that of what the checksum looks at of it.
pub proof fn lemma_stream_of_faces(entries: Seq<EntryView>)
    ensures
        stream_of(faces(entries)) == stream_of(entries),
    decreases entries.len(),
{
    if entries.len() > 0 {
        lemma_stream_of_faces(entries.drop_last());
        assert(faces(entries).drop_last() =~= faces(entries.drop_last()));
        assert(faces(entries).last() == face(entries.last()));
        assert(entry_stream(face(entries.last())) == entry_stream(entries.last()));
    } else {
        assert(faces(entries) =~= Seq::<EntryView>::empty());
    }
}

/// The checksum of a tree is that of what the checksum looks at of it: mode,
/// time and owners of the entries do not count.
pub proof fn lemma_checksum_of_faces(tree: Seq<EntryView>)
    ensures
        checksum_stream(faces(tree)) == checksum_stream(tree),
        checksum_text(faces(tree)) == checksum_text(tree),
        distinct_paths(tree) ==> distinct_paths(faces(tree)),
{
    assert(keys_of(faces(tree)) =~= keys_of(tree));
    let order = path_order(keys_of(tree), tree.len());
    lemma_path_order(keys_of(tree), tree.len());
    assert(sorted_tree(faces(tree)) =~= faces(sorted_tree(tree)));
    lemma_stream_of_faces(sorted_tree(tree));
    if distinct_paths(tree) {
        let f = faces(tree);
        assert forall|i: int, j: int| 0 <= i < f.len() && 0 <= j < f.len() && i != j implies key(
            #[trigger] f[i],
        ) != key(#[trigger] f[j]) by {
            assert(key(f[i]) == key(tree[i]));
            assert(key(f[j]) == key(tree[j]));
        }
    }
}

/// The checksum of a tree does not depend on the order in which its entries
/// were found, nor on their modes, times and owners: two lists that hold the
/// same paths with the same kinds and contents, each path standing once, have
/// one checksum.
pub proof fn lemma_checksum_order_independent(a: Seq<EntryView>, b: Seq<EntryView>)
    requires
        distinct_paths(a),
        distinct_paths(b),
        same_entries(faces(a), faces(b)),
    ensures
        checksum_stream(a) == checksum_stream(b),
        checksum_text(a) == checksum_text(b),
{
    lemma_checksum_of_faces(a);
    lemma_checksum_of_faces(b);
    lemma_same_entries_same_order(faces(a), faces(b));
}

/// The stream of a list with one entry put in has the bytes of the list and
/// those of the entry.
pub proof fn lemma_stream_of_insert(s: Seq<EntryView>, at: int, e: EntryView)
    requires
        0 <= at <= s.len(),
    ensures
        stream_of(s.insert(at, e)).len() == stream_of(s).len() + entry_stream(e).len(),
{
    let one = seq![e];
    assert(one.drop_last() =~= Seq::<EntryView>::empty());
    assert(stream_of(Seq::<EntryView>::empty()) =~= Seq::<u8>::empty());
    assert(one.last() == e);
    assert(stream_of(one) =~= entry_stream(e));
    assert(s.insert(at, e) =~= s.take(at) + one + s.skip(at));
    assert(s =~= s.take(at) + s.skip(at));
    lemma_stream_of_concat(s.take(at) + one, s.skip(at));
    lemma_stream_of_concat(s.take(at), one);
    lemma_stream_of_concat(s.take(at), s.skip(at));
}

/// The first `n` entries of a tree, put in order, have as many bytes in
/// their stream as they have as they stand.
pub proof fn lemma_stream_len_of_order(tree: Seq<EntryView>, n: nat)
    requires
        n <= tree.len(),
    ensures
        stream_of(pick(tree, path_order(keys_of(tree), n))).len() == stream_of(
            tree.take(n as int),
        ).len(),
    decreases n,
{
    let keys = keys_of(tree);
    if n == 0 {
        assert(pick(tree, path_order(keys, 0)) =~= Seq::<EntryView>::empty());
        assert(tree.take(0) =~= Seq::<EntryView>::empty());
    } else {
        let before = path_order(keys, (n - 1) as nat);
        lemma_stream_len_of_order(tree, (n - 1) as nat);
        lemma_path_order(keys, (n - 1) as nat);
        let at = lemma_insert_index_shape(before, keys, n - 1);
        assert(pick(tree, before.insert(at, n - 1)) =~= pick(tree, before).insert(at, tree[n - 1]));
        lemma_stream_of_insert(pick(tree, before), at, tree[n - 1]);
        let upto = tree.take(n as int);
        assert(upto.drop_last() =~= tree.take(n - 1));
        assert(upto.last() == tree[n - 1]);
    }
}

/// Putting a tree in order changes which bytes stand where in its stream,
/// not how many there are.
pub proof fn lemma_stream_len(tree: Seq<EntryView>)
    ensures
        checksum_stream(tree).len() == stream_of(tree).len(),
{
    lemma_stream_len_of_order(tree, tree.len());
    assert(tree.take(tree.len() as int) =~= tree);
}

/// An entry more, of whatever kind, changes the bytes that the checksum is
/// taken of; the root alone, whose path is empty, adds nothing.
pub proof fn lemma_added_entry_changes_stream(tree: Seq<EntryView>, e: EntryView)
    requires
        e.path.len() > 0,
    ensures
        checksum_stream(tree.push(e)) != checksum_stream(tree),
{
    lemma_key_of_path(e);
    lemma_stream_len(tree);
    lemma_stream_len(tree.push(e));
    assert(tree.push(e).drop_last() =~= tree);
}

/// An entry less, of whatever kind, changes the bytes that the checksum is
/// taken of; the root alone, whose path is empty, takes nothing with it.
pub proof fn lemma_removed_entry_changes_stream(tree: Seq<EntryView>, at: int)
    requires
        0 <= at < tree.len(),
        tree[at].path.len() > 0,
    ensures
        checksum_stream(tree.remove(at)) != checksum_stream(tree),
{
    lemma_key_of_path(tree[at]);
    lemma_stream_len(tree);
    lemma_stream_len(tree.remove(at));
    assert(tree.remove(at).insert(at, tree[at]) =~= tree);
    lemma_stream_of_insert(tree.remove(at), at, tree[at]);
}

/// Changing the content of one file of a tree changes the bytes that the
/// checksum is taken of.
pub proof fn lemma_content_change_changes_stream(tree: Seq<EntryView>, at: int, content: Seq<u8>)
    requires
        0 <= at < tree.len(),
        tree[at].kind == EntryKind::File,
        content != tree[at].content,
    ensures
        checksum_stream(tree.update(at, EntryView { content: content, ..tree[at] }))
            != checksum_stream(tree),
{
    let changed_entry = EntryView { content: content, ..tree[at] };
    let changed = tree.update(at, changed_entry);
    assert(keys_of(changed) =~= keys_of(tree));
    let order = path_order(keys_of(tree), tree.len());
    lemma_path_order(keys_of(tree), tree.len());
    assert(order.contains(at));
    let j = choose|j: int| 0 <= j < order.len() && order[j] == at;
    let s = sorted_tree(tree);
    let t = sorted_tree(changed);
    assert(s.len() == t.len());
    assert(s.take(j) =~= t.take(j));
    assert forall|i: int| j < i < s.len() implies #[trigger] s[i] == t[i] by {
        assert(order[i] != order[j]);
    }
    assert(s.skip(j + 1) =~= t.skip(j + 1));
    assert(s =~= s.take(j) + seq![s[j]] + s.skip(j + 1));
    assert(t =~= t.take(j) + seq![t[j]] + t.skip(j + 1));
    lemma_stream_of_concat(s.take(j) + seq![s[j]], s.skip(j + 1));
    lemma_stream_of_concat(s.take(j), seq![s[j]]);
    lemma_stream_of_concat(t.take(j) + seq![t[j]], t.skip(j + 1));
    lemma_stream_of_concat(t.take(j), seq![t[j]]);
    let front = stream_of(s.take(j));
    let back = stream_of(s.skip(j + 1));
    let mid_s = key(tree[at]) + tree[at].content;
    let mid_t = key(tree[at]) + content;
    assert(stream_of(seq![s[j]]) =~= mid_s) by {
        assert(seq![s[j]].drop_last() =~= Seq::<EntryView>::empty());
        assert(stream_of(Seq::<EntryView>::empty()) =~= Seq::<u8>::empty());
    }
    assert(stream_of(seq![t[j]]) =~= mid_t) by {
        assert(seq![t[j]].drop_last() =~= Seq::<EntryView>::empty());
        assert(stream_of(Seq::<EntryView>::empty()) =~= Seq::<u8>::empty());
    }
    let whole_s = front + mid_s + back;
    let whole_t = front + mid_t + back;
    assert(checksum_stream(tree) == whole_s);
    assert(checksum_stream(changed) == whole_t);
    if whole_s == whole_t {
        assert(mid_s.len() == mid_t.len());
        let from = (front.len() + key(tree[at]).len()) as int;
        let to = (front.len() + mid_s.len()) as int;
        assert(tree[at].content =~= whole_s.subrange(from, to));
        assert(content =~= whole_t.subrange(from, to));
    }
}

/// One hexadecimal digit as text.
pub(crate) fn nibble_text(n: u8) -> (r: &'static str)
    requires
        n < 16,
    ensures
        r@ == seq![hex_digit(n as int)],
{
    proof {
        reveal_strlit("0");
        reveal_strlit("1");
        reveal_strlit("2");
        reveal_strlit("3");
        reveal_strlit("4");
        reveal_strlit("5");
        reveal_strlit("6");
        reveal_strlit("7");
        reveal_strlit("8");
        reveal_strlit("9");
        reveal_strlit("a");
        reveal_strlit("b");
        reveal_strlit("c");
        reveal_strlit("d");
        reveal_strlit("e");
        reveal_strlit("f");
    }
    let r = if n == 0 {
        "0"
    } else if n == 1 {
        "1"
    } else if n == 2 {
        "2"
    } else if n == 3 {
        "3"
    } else if n == 4 {
        "4"
    } else if n == 5 {
        "5"
    } else if n == 6 {
        "6"
    } else if n == 7 {
        "7"
    } else if n == 8 {
        "8"
    } else if n == 9 {
        "9"
    } else if n == 10 {
        "a"
    } else if n == 11 {
        "b"
    } else if n == 12 {
        "c"
    } else if n == 13 {
        "d"
    } else if n == 14 {
        "e"
    } else {
        "f"
    };
    assert(r@ =~= seq![hex_digit(n as int)]);
    r
}

/// The bytes in lower-case hexadecimal.
pub fn to_hex(bytes: &[u8]) -> (r: String)
    ensures
        r@ == hex_text(bytes@),
{
    let mut r = String::new();
    let mut i: usize = 0;
    assert(bytes@.take(0) =~= Seq::<u8>::empty());
    while i < bytes.len()
        invariant
            i <= bytes.len(),
            r@ == hex_text(bytes@.take(i as int)),
        decreases bytes.len() - i,
    {
        let b = bytes[i];
        r.append(nibble_text(b / 16));
        r.append(nibble_text(b % 16));
        proof {
            let next = bytes@.take(i + 1);
            assert(next.drop_last() =~= bytes@.take(i as int));
            assert(next.last() == b);
            assert(r@ =~= hex_text(next));
        }
        i += 1;
    }
    assert(bytes@.take(bytes.len() as int) =~= bytes@);
    r
}

/// How many bytes a digest absorbs at a time.
pub const CHUNK_SIZE: usize = 8192;

impl Digest {
    /// A digest that has absorbed nothing.
    pub fn new() -> (d: Self)
        ensures
            absorbed(d) == Seq::<u8>::empty(),
    {
        sha256_new()
    }

    /// Absorbs the bytes, a chunk of bounded size at a time.
    pub fn absorb(&mut self, data: &[u8])
        ensures
            absorbed(*final(self)) == absorbed(*old(self)) + data@,
    {
        let mut done: usize = 0;
        assert(data@.take(0) =~= Seq::<u8>::empty());
        assert(absorbed(*self) + data@.take(0) =~= absorbed(*self));
        while done < data.len()
            invariant
                done <= data.len(),
                absorbed(*self) == absorbed(*old(self)) + data@.take(done as int),
            decreases data.len() - done,
        {
            let end = if data.len() - done > CHUNK_SIZE {
                done + CHUNK_SIZE
            } else {
                data.len()
            };
            let ghost before = absorbed(*self);
            sha256_update(self, vstd::slice::slice_subrange(data, done, end));
            assert(data@.take(done as int) + data@.subrange(done as int, end as int) =~= data@.take(
                end as int,
            ));
            assert(absorbed(*self) =~= absorbed(*old(self)) + data@.take(end as int));
            done = end;
        }
        assert(data@.take(data.len() as int) =~= data@);
    }

    /// The digest of the bytes absorbed, in lower-case hexadecimal.
    pub fn finish(self) -> (sum: String)
        ensures
            sum@ == hex_text(sha256_digest(absorbed(self))),
            sum@.len() == 64,
    {
        let digest = sha256_finalize(self);
        proof {
            lemma_hex_text_len(digest@);
        }
        to_hex(digest.as_slice())
    }
}

/// The SHA-256 digest of the bytes, in lower-case hexadecimal.
pub fn calculate_file_checksum(content: &[u8]) -> (sum: String)
    ensures
        sum@ == hex_text(sha256_digest(content@)),
        sum@.len() == 64,
{
    let mut digest = Digest::new();
    digest.absorb(content);
    assert(absorbed(digest) =~= content@);
    digest.finish()
}

/// Hexadecimal takes two digits for each byte.
pub proof fn lemma_hex_text_len(bytes: Seq<u8>)
    ensures
        hex_text(bytes).len() == 2 * bytes.len(),
    decreases bytes.len(),
{
    if bytes.len() > 0 {
        lemma_hex_text_len(bytes.drop_last());
    }
}

/// Lets the digest absorb what the checksum takes of one entry.
pub fn absorb_entry(digest: &mut Digest, entry: &TreeEntry)
    ensures
        absorbed(*final(digest)) == absorbed(*old(digest)) + entry_stream(entry@),
{
    digest.absorb(entry.path.as_str().as_bytes());
    match entry.kind {
        EntryKind::File => {
            digest.absorb(entry.content.as_slice());
            assert(absorbed(*digest) =~= absorbed(*old(digest)) + entry_stream(entry@));
        },
        _ => {},
    }
}

/// The checksum of a directory tree, given as the list of its entries in any
/// order: the digest of the stream that holds, for each entry of whatever
/// kind in ascending order of the paths, the path and, for a file, the
/// content.
pub fn calculate_directory_checksum(entries: &Vec<TreeEntry>) -> (sum: String)
    ensures
        sum@ == checksum_text(tree_view(entries@)),
        sum@.len() == 64,
{
    let order = sort_by_path(entries);
    let ghost tree = tree_view(entries@);
    let ghost sorted = sorted_tree(tree);
    let mut digest = Digest::new();
    let mut j: usize = 0;
    assert(sorted.take(0) =~= Seq::<EntryView>::empty());
    while j < order.len()
        invariant
            j <= order@.len(),
            order@.len() == entries@.len(),
            tree == tree_view(entries@),
            sorted == sorted_tree(tree),
            forall|i: int| 0 <= i < order@.len() ==> #[trigger] order@[i] < entries@.len(),
            order@.map_values(|p: usize| p as int) == path_order(keys_of(tree), entries@.len()),
            absorbed(digest) == stream_of(sorted.take(j as int)),
        decreases order@.len() - j,
    {
        let p = order[j];
        proof {
            let next = sorted.take(j + 1);
            assert(order@.map_values(|p: usize| p as int)[j as int] == p as int);
            assert(sorted[j as int] == entries@[p as int]@);
            assert(next.drop_last() =~= sorted.take(j as int));
            assert(next.last() == entries@[p as int]@);
        }
        absorb_entry(&mut digest, &entries[p]);
        j += 1;
    }
    assert(sorted.take(sorted.len() as int) =~= sorted);
    digest.finish()
}

} // verus!

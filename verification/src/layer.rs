//! Packing a directory tree into a layer stream, with the checksum of the
//! tree as a second result of the one walk.

use vstd::prelude::*;
use crate::archive::{
    all_contained, append_member, appended, archived, entries_of, entry_of, escapes, finish_writer,
    has_parent_component, is_archived, is_plain_member, kind_of, member_of, members_of,
    new_writer, tar_members, tar_stored, tar_stream, to_member, written, ArchiveError,
    MemberView,
};
use crate::checksum::{
    absorb_entry, absorbed, checksum_stream, checksum_text, entry_stream, lemma_ascending_unique,
    lemma_key_of_path, lemma_sorted_tree, stream_of, strictly_ascending, Digest,
};
use crate::tree::{
    distinct_paths, key, keys_of, lemma_precedes_irreflexive, path_order, precedes,
    sort_by_path, sorted_tree, tree_view, EntryKind, EntryView, TreeEntry,
};

verus! {

/// An entry that a layer stream can hold: a file or a directory, of which the
/// archive library takes the member that stands for it. What is neither file
/// nor directory cannot be packed.
pub open spec fn is_packable(e: EntryView) -> bool {
    &&& e.kind != EntryKind::Other
    &&& is_archived(e) ==> tar_stored(member_of(e)) is Some
}

/// Every entry of the list can be packed.
pub open spec fn all_packable(entries: Seq<EntryView>) -> bool {
    forall|i: int| 0 <= i < entries.len() ==> is_packable(#[trigger] entries[i])
}

/// Position `i` holds the first entry that cannot be packed.
pub open spec fn first_unpackable(entries: Seq<EntryView>, i: int) -> bool {
    &&& 0 <= i < entries.len()
    &&& !is_packable(entries[i])
    &&& forall|j: int| 0 <= j < i ==> is_packable(#[trigger] entries[j])
}

/// An entry as a walk through a directory gives it: a file or a directory,
/// and, but for the root, under a plain path with a mode and owners that a
/// header has room for.
pub open spec fn is_plain_entry(e: EntryView) -> bool {
    &&& e.kind != EntryKind::Other
    &&& is_archived(e) ==> is_plain_member(member_of(e))
}

/// Every entry of the tree is plain.
pub open spec fn is_plain_tree(tree: Seq<EntryView>) -> bool {
    forall|i: int| 0 <= i < tree.len() ==> is_plain_entry(#[trigger] tree[i])
}

/// What the archive holds of a list of entries that can be packed, taken as
/// they stand: of each archived entry what it holds of its member.
pub open spec fn stored_members(entries: Seq<EntryView>) -> Seq<MemberView>
    decreases entries.len(),
{
    if entries.len() == 0 {
        Seq::empty()
    } else if is_archived(entries.last()) {
        stored_members(entries.drop_last()).push(tar_stored(member_of(entries.last())).unwrap())
    } else {
        stored_members(entries.drop_last())
    }
}

/// The archive holds the member of each archived entry as it is.
pub open spec fn held_as_written(entries: Seq<EntryView>) -> bool {
    forall|i: int|
        0 <= i < entries.len() && is_archived(#[trigger] entries[i]) ==> tar_stored(
            member_of(entries[i]),
        ) == Some(member_of(entries[i]))
}

/// The tree that the archive holds of a list of entries: the archived ones,
/// each as the member written for it stands for it.
pub open spec fn carried(entries: Seq<EntryView>) -> Seq<EntryView> {
    entries_of(members_of(entries))
}

/// Where the archive holds every member as it is, what it holds of a list
/// are the members of the list.
pub proof fn lemma_stored_members(entries: Seq<EntryView>)
    requires
        held_as_written(entries),
    ensures
        stored_members(entries) == members_of(entries),
    decreases entries.len(),
{
    if entries.len() > 0 {
        let front = entries.drop_last();
        assert forall|i: int| 0 <= i < front.len() && is_archived(#[trigger] front[i]) implies tar_stored(
            member_of(front[i]),
        ) == Some(member_of(front[i])) by {
            assert(front[i] == entries[i]);
        }
        lemma_stored_members(front);
        assert(entries.last() == entries[entries.len() - 1]);
    }
}

/// A list in strictly ascending order of the paths is its own sorted tree.
pub proof fn lemma_ascending_is_sorted(t: Seq<EntryView>)
    requires
        strictly_ascending(t),
    ensures
        distinct_paths(t),
        sorted_tree(t) == t,
{
    assert forall|i: int, j: int| 0 <= i < t.len() && 0 <= j < t.len() && i != j implies key(
        #[trigger] t[i],
    ) != key(#[trigger] t[j]) by {
        lemma_precedes_irreflexive(key(t[i]));
        if i < j {
            assert(precedes(key(t[i]), key(t[j])));
        } else {
            assert(precedes(key(t[j]), key(t[i])));
        }
    }
    lemma_sorted_tree(t);
    lemma_ascending_unique(sorted_tree(t), t);
}

/// What the archive holds of a list of files and directories absorbs into
/// the checksum as the list does, and stays in ascending order where the
/// list is.
pub proof fn lemma_carried(s: Seq<EntryView>)
    requires
        forall|i: int| 0 <= i < s.len() ==> (#[trigger] s[i]).kind != EntryKind::Other,
    ensures
        stream_of(carried(s)) == stream_of(s),
        forall|j: int|
            0 <= j < carried(s).len() ==> exists|i: int|
                0 <= i < s.len() && key(#[trigger] s[i]) == key(#[trigger] carried(s)[j]),
        strictly_ascending(s) ==> strictly_ascending(carried(s)),
    decreases s.len(),
{
    if s.len() == 0 {
        assert(carried(s) =~= Seq::<EntryView>::empty());
    } else {
        let front = s.drop_last();
        let last = s.last();
        assert(last == s[s.len() - 1]);
        assert forall|i: int| 0 <= i < front.len() implies (#[trigger] front[i]).kind
            != EntryKind::Other by {
            assert(front[i] == s[i]);
        }
        lemma_carried(front);
        if is_archived(last) {
            let x = entry_of(member_of(last));
            assert(carried(s) =~= carried(front).push(x));
            assert(carried(s).drop_last() =~= carried(front));
            assert(entry_stream(x) =~= entry_stream(last));
            assert forall|j: int| 0 <= j < carried(s).len() implies exists|i: int|
                0 <= i < s.len() && key(#[trigger] s[i]) == key(#[trigger] carried(s)[j]) by {
                if j < carried(front).len() {
                    let i = choose|i: int|
                        0 <= i < front.len() && key(#[trigger] front[i]) == key(
                            #[trigger] carried(front)[j],
                        );
                    assert(s[i] == front[i]);
                } else {
                    assert(key(s[s.len() - 1]) == key(carried(s)[j]));
                }
            }
        } else {
            // the root: a directory under the empty path
            lemma_key_of_path(last);
            assert(carried(s) =~= carried(front));
            assert(entry_stream(last) =~= Seq::<u8>::empty());
            assert(stream_of(s) =~= stream_of(front));
            assert forall|j: int| 0 <= j < carried(s).len() implies exists|i: int|
                0 <= i < s.len() && key(#[trigger] s[i]) == key(#[trigger] carried(s)[j]) by {
                let i = choose|i: int|
                    0 <= i < front.len() && key(#[trigger] front[i]) == key(
                        #[trigger] carried(front)[j],
                    );
                assert(s[i] == front[i]);
            }
        }
        if strictly_ascending(s) {
            assert forall|i: int, j: int| 0 <= i < j < front.len() implies precedes(
                key(#[trigger] front[i]),
                key(#[trigger] front[j]),
            ) by {
                assert(front[i] == s[i] && front[j] == s[j]);
            }
            let c = carried(s);
            let cf = carried(front);
            assert forall|a: int, b: int| 0 <= a < b < c.len() implies precedes(
                key(#[trigger] c[a]),
                key(#[trigger] c[b]),
            ) by {
                if b < cf.len() {
                    assert(c[a] == cf[a] && c[b] == cf[b]);
                } else {
                    // `c[b]` stands for the last entry, `c[a]` for an earlier one
                    assert(c[a] == cf[a]);
                    let i = choose|i: int|
                        0 <= i < front.len() && key(#[trigger] front[i]) == key(#[trigger] cf[a]);
                    assert(front[i] == s[i]);
                    assert(precedes(key(s[i]), key(s[s.len() - 1])));
                }
            }
        }
    }
}

/// The members that stand for a list of plain entries stay inside the
/// directory they are written into, and each is a file or a directory.
pub proof fn lemma_plain_members(s: Seq<EntryView>)
    requires
        forall|i: int| 0 <= i < s.len() ==> is_plain_entry(#[trigger] s[i]),
    ensures
        all_contained(members_of(s)),
        forall|j: int|
            0 <= j < members_of(s).len() ==> kind_of(#[trigger] members_of(s)[j].typeflag)
                != EntryKind::Other,
    decreases s.len(),
{
    if s.len() > 0 {
        let front = s.drop_last();
        let last = s.last();
        assert(last == s[s.len() - 1]);
        assert forall|i: int| 0 <= i < front.len() implies is_plain_entry(#[trigger] front[i]) by {
            assert(front[i] == s[i]);
        }
        lemma_plain_members(front);
        if is_archived(last) {
            let m = member_of(last);
            assert(is_plain_member(m));
            assert(!has_parent_component(m.path));
            assert(!escapes(m.path));
            assert(kind_of(m.typeflag) != EntryKind::Other);
            assert(members_of(s) =~= members_of(front).push(m));
        }
    }
}

/// Packing and extracting keeps the checksum: the members that packing
/// writes for a tree of files and directories stand for a tree of the same
/// checksum.
pub proof fn lemma_round_trip_checksum(tree: Seq<EntryView>)
    requires
        distinct_paths(tree),
        forall|i: int| 0 <= i < tree.len() ==> (#[trigger] tree[i]).kind != EntryKind::Other,
    ensures
        checksum_stream(carried(sorted_tree(tree))) == checksum_stream(tree),
        checksum_text(carried(sorted_tree(tree))) == checksum_text(tree),
{
    let s = sorted_tree(tree);
    lemma_sorted_tree(tree);
    assert forall|i: int| 0 <= i < s.len() implies (#[trigger] s[i]).kind != EntryKind::Other by {
        assert(s.contains(s[i]));
        assert(tree.contains(s[i]));
    }
    lemma_carried(s);
    lemma_ascending_is_sorted(carried(s));
}

/// What [`create_tar_archive`] answers for a tree. It succeeds exactly where
/// every entry can be packed, and so for every plain tree. The stream is
/// that of the members of the sorted tree, and the archive library reads it
/// back as what the archive keeps of them; of a plain tree it keeps the
/// members as they are, and the tree that is read back has the checksum of
/// the tree that was packed.
/// Where it fails, the error is that of the first entry, in the order of the
/// paths, that cannot be packed.
pub open spec fn is_packed(tree: Seq<EntryView>, r: Result<(Vec<u8>, String), ArchiveError>) -> bool {
    let sorted = sorted_tree(tree);
    match r {
        Ok((bytes, sum)) => {
            &&& all_packable(sorted)
            &&& bytes@ == tar_stream(members_of(sorted))
            &&& tar_members(bytes@) == Some(stored_members(sorted))
            &&& sum@ == checksum_text(tree)
            &&& is_plain_tree(tree) ==> stored_members(sorted) == members_of(sorted)
            &&& is_plain_tree(tree) && distinct_paths(tree) ==> checksum_text(
                entries_of(stored_members(sorted)),
            ) == sum@
        },
        Err(e) => {
            &&& !is_plain_tree(tree)
            &&& exists|i: int|
                first_unpackable(sorted, i) && if (#[trigger] sorted[i]).kind == EntryKind::Other {
                    e matches ArchiveError::Unsupported(p) && p@ == sorted[i].path
                } else {
                    e is Codec
                }
        },
    }
}

/// Packs a directory tree, given as the list of its entries in any order,
/// into a layer stream: one member for each file and for each directory but
/// the root, in ascending order of the paths. The second result is the
/// checksum of the tree, taken on the same walk. A tree that holds what is
/// neither file nor directory is refused.
pub fn create_tar_archive(entries: &Vec<TreeEntry>) -> (r: Result<(Vec<u8>, String), ArchiveError>)
    ensures
        is_packed(tree_view(entries@), r),
{
    let order = sort_by_path(entries);
    let ghost tree = tree_view(entries@);
    let ghost sorted = sorted_tree(tree);
    proof {
        lemma_sorted_tree(tree);
    }
    let mut w = new_writer();
    let mut digest = Digest::new();
    let mut j: usize = 0;
    assert(sorted.take(0) =~= Seq::<EntryView>::empty());
    while j < order.len()
        invariant
            j <= order@.len(),
            order@.len() == entries@.len(),
            tree == tree_view(entries@),
            sorted == sorted_tree(tree),
            sorted.len() == tree.len(),
            forall|e: EntryView| sorted.contains(e) ==> tree.contains(e),
            forall|i: int| 0 <= i < order@.len() ==> #[trigger] order@[i] < entries@.len(),
            order@.map_values(|p: usize| p as int) == path_order(keys_of(tree), entries@.len()),
            absorbed(digest) == stream_of(sorted.take(j as int)),
            written(w) == stored_members(sorted.take(j as int)),
            appended(w) == members_of(sorted.take(j as int)),
            forall|i: int| 0 <= i < j ==> is_packable(#[trigger] sorted[i]),
            forall|i: int|
                0 <= i < j && is_plain_entry(#[trigger] sorted[i]) && is_archived(sorted[i])
                    ==> tar_stored(member_of(sorted[i])) == Some(member_of(sorted[i])),
        decreases order@.len() - j,
    {
        let p = order[j];
        let entry = &entries[p];
        proof {
            let next = sorted.take(j + 1);
            assert(order@.map_values(|p: usize| p as int)[j as int] == p as int);
            assert(sorted[j as int] == entry@);
            assert(next.drop_last() =~= sorted.take(j as int));
            assert(next.last() == entry@);
            assert(sorted.contains(sorted[j as int]));
            assert(tree.contains(entry@));
        }
        match entry.kind {
            EntryKind::Other => {
                assert(first_unpackable(sorted, j as int));
                return Err(ArchiveError::Unsupported(entry.path.clone()));
            },
            _ => {},
        }
        if archived(entry) {
            let m = to_member(entry);
            match append_member(&mut w, &m) {
                Ok(_) => {},
                Err(e) => {
                    assert(first_unpackable(sorted, j as int));
                    return Err(e);
                },
            }
        }
        absorb_entry(&mut digest, entry);
        j += 1;
    }
    assert(sorted.take(sorted.len() as int) =~= sorted);
    let sum = digest.finish();
    proof {
        if is_plain_tree(tree) {
            assert forall|i: int| 0 <= i < sorted.len() implies is_plain_entry(
                #[trigger] sorted[i],
            ) by {
                assert(sorted.contains(sorted[i]));
                assert(tree.contains(sorted[i]));
            }
            lemma_stored_members(sorted);
            if distinct_paths(tree) {
                lemma_round_trip_checksum(tree);
            }
        }
    }
    match finish_writer(w) {
        Ok(bytes) => Ok((bytes, sum)),
        Err(e) => Err(e),
    }
}

} // verus!

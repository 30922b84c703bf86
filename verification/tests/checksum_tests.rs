use layer_tool::checksum::{
    calculate_directory_checksum, calculate_file_checksum, to_hex, Digest, CHUNK_SIZE,
};
use layer_tool::tree::{path_before, sort_by_path, EntryKind, TreeEntry};

fn file(path: &str, content: &[u8]) -> TreeEntry {
    TreeEntry::file(path.to_string(), content.to_vec())
}

fn dir(path: &str) -> TreeEntry {
    TreeEntry::directory(path.to_string())
}

#[test]
fn file_checksum_of_nothing_is_the_digest_of_the_empty_string() {
    assert_eq!(
        calculate_file_checksum(b""),
        "e3b0c44298fc1c149afbf4c8996fb92427ae41e4649b934ca495991b7852b855"
    );
}

#[test]
fn file_checksum_of_abc() {
    assert_eq!(
        calculate_file_checksum(b"abc"),
        "ba7816bf8f01cfea414140de5dae2223b00361a396177a9cb410ff61f20015ad"
    );
}

#[test]
fn file_checksum_is_not_the_input_in_hexadecimal() {
    assert_ne!(calculate_file_checksum(b"hello"), to_hex(b"hello"));
    assert_eq!(
        calculate_file_checksum(b"hello"),
        "2cf24dba5fb0a30e26e83b2ac5b9e29e1b161e5c1fa7425e73043362938b9824"
    );
}

#[test]
fn hexadecimal_is_lower_case_with_two_digits_for_each_byte() {
    assert_eq!(to_hex(&[]), "");
    assert_eq!(to_hex(&[0x00, 0x0f, 0xa0, 0xff, 0x1b]), "000fa0ff1b");
}

#[test]
fn directory_checksum_of_a_file_and_an_empty_directory() {
    let tree = vec![file("a.txt", b"hello"), dir("b")];
    assert_eq!(
        calculate_directory_checksum(&tree),
        "e22ee6c0a647f35b7758f9944d655d0171ad8edc37e58c3c0c42475751e97bf3"
    );
    assert_eq!(calculate_directory_checksum(&tree), calculate_file_checksum(b"a.txthellob"));
}

#[test]
fn directory_checksum_does_not_depend_on_the_order_of_discovery() {
    let a = vec![file("a.txt", b"hello"), dir("b"), file("b/c", b"1"), file("z", b"")];
    let b = vec![file("z", b""), file("b/c", b"1"), file("a.txt", b"hello"), dir("b")];
    let c = vec![dir("b"), file("z", b""), file("a.txt", b"hello"), file("b/c", b"1")];
    assert_eq!(calculate_directory_checksum(&a), calculate_directory_checksum(&b));
    assert_eq!(calculate_directory_checksum(&a), calculate_directory_checksum(&c));
    assert_eq!(calculate_directory_checksum(&a), calculate_file_checksum(b"a.txthellobb/c1z"));
}

#[test]
fn directory_checksum_ignores_the_attributes_of_the_entries() {
    let plain = vec![file("a.txt", b"hello")];
    let mut dated = file("a.txt", b"hello");
    dated.mtime = 1_700_000_000;
    dated.mode = 0o600;
    dated.uid = 1000;
    dated.gid = 1000;
    assert_eq!(calculate_directory_checksum(&plain), calculate_directory_checksum(&vec![dated]));
}

#[test]
fn directory_checksum_leaves_out_the_root_alone() {
    let tree = vec![dir(""), file("a.txt", b"hello"), dir("b")];
    assert_eq!(calculate_directory_checksum(&tree), calculate_file_checksum(b"a.txthellob"));
    assert_eq!(calculate_directory_checksum(&vec![]), calculate_file_checksum(b""));
    assert_eq!(calculate_directory_checksum(&vec![dir("")]), calculate_file_checksum(b""));
}

#[test]
fn directory_checksum_takes_the_path_of_what_is_neither_file_nor_directory() {
    let mut socket = file("run.sock", b"not looked at");
    socket.kind = EntryKind::Other;
    let with = vec![file("a.txt", b"hello"), socket, dir("b")];
    let without = vec![file("a.txt", b"hello"), dir("b")];
    assert_eq!(calculate_directory_checksum(&with), calculate_file_checksum(b"a.txthellobrun.sock"));
    assert_ne!(calculate_directory_checksum(&with), calculate_directory_checksum(&without));
}

#[test]
fn directory_checksum_takes_a_directory_before_what_lies_beside_it() {
    // by components "a/b" comes before "a.b", though '.' is the smaller byte
    let tree = vec![file("a.b", b"y"), file("a/b", b"x"), dir("a")];
    assert_eq!(
        calculate_directory_checksum(&tree),
        "871ef7ab201bfd28e88ed8d81572cca06381bca1cc4cdeff45b718be9784e7d9"
    );
    assert_eq!(calculate_directory_checksum(&tree), calculate_file_checksum(b"aa/bxa.by"));
}

#[test]
fn directory_checksum_changes_with_one_byte_of_one_file() {
    let a = vec![file("a.txt", b"hello"), file("b.txt", b"world")];
    let b = vec![file("a.txt", b"hello"), file("b.txt", b"worle")];
    assert_ne!(calculate_directory_checksum(&a), calculate_directory_checksum(&b));
}

#[test]
fn directory_checksum_changes_with_an_entry_more_or_less() {
    let a = vec![file("a.txt", b"hello"), dir("b")];
    let more = vec![file("a.txt", b"hello"), dir("b"), file("c", b"")];
    let less = vec![file("a.txt", b"hello")];
    assert_ne!(calculate_directory_checksum(&a), calculate_directory_checksum(&more));
    assert_ne!(calculate_directory_checksum(&a), calculate_directory_checksum(&less));
}

#[test]
fn paths_are_ordered_by_their_components() {
    assert!(path_before(b"a", b"b"));
    assert!(!path_before(b"b", b"a"));
    assert!(!path_before(b"a", b"a"));
    assert!(path_before(b"", b"a"));
    assert!(path_before(b"a", b"a/b"));
    assert!(path_before(b"a/b", b"a.b"));
    assert!(!path_before(b"a.b", b"a/b"));
    assert!(path_before(b"a/z", b"ab"));
    assert!(path_before(b"a.b", b"ab"));
    assert!(path_before(b"a\x00", b"a\x01"));
    assert!(path_before(b"a/", b"a\x00"));
}

#[test]
fn sorting_gives_the_positions_in_ascending_order_of_the_paths() {
    let tree = vec![file("c", b""), file("a", b""), dir("b"), file("b/x", b""), file("b.x", b"")];
    assert_eq!(sort_by_path(&tree), vec![1, 2, 3, 4, 0]);
    assert_eq!(sort_by_path(&vec![]), Vec::<usize>::new());
}

#[test]
fn sorting_keeps_entries_of_one_path_in_the_order_they_came() {
    let tree = vec![file("b", b"1"), file("a", b"2"), file("b", b"3"), file("a", b"4")];
    assert_eq!(sort_by_path(&tree), vec![1, 3, 0, 2]);
}

#[test]
fn a_digest_absorbs_piece_by_piece_what_it_would_absorb_at_once() {
    let mut digest = Digest::new();
    digest.absorb(b"a.txt");
    digest.absorb(b"");
    digest.absorb(b"hel");
    digest.absorb(b"lob");
    assert_eq!(digest.finish(), calculate_file_checksum(b"a.txthellob"));
    assert_eq!(
        Digest::new().finish(),
        "e3b0c44298fc1c149afbf4c8996fb92427ae41e4649b934ca495991b7852b855"
    );
}

#[test]
fn a_digest_of_many_chunks_is_the_digest_of_the_whole() {
    assert_eq!(CHUNK_SIZE, 8192);
    // a million times the letter a
    let million = vec![b'a'; 1_000_000];
    assert_eq!(
        calculate_file_checksum(&million),
        "cdc76e5c9914fb9281a1c7e284d73e67f1809a48a497200e046d39ccc7112cd0"
    );
    for size in [8191usize, 8192, 8193, 16384, 20000] {
        let mut bytes = Vec::new();
        for i in 0..size {
            bytes.push((i * 31 % 251) as u8);
        }
        let mut halves = Digest::new();
        halves.absorb(&bytes[..size / 2]);
        halves.absorb(&bytes[size / 2..]);
        assert_eq!(halves.finish(), calculate_file_checksum(&bytes));
        let tree = vec![TreeEntry::file("f".to_string(), bytes.clone())];
        let mut stream = b"f".to_vec();
        stream.extend_from_slice(&bytes);
        assert_eq!(calculate_directory_checksum(&tree), calculate_file_checksum(&stream));
    }
}

#[test]
fn a_large_tree_is_sorted_whatever_order_it_comes_in() {
    let mut tree = Vec::new();
    for i in (0..30_000u32).rev() {
        tree.push(file(&format!("dir{:03}/file{:05}", i % 500, i), b""));
    }
    let order = sort_by_path(&tree);
    assert_eq!(order.len(), tree.len());
    for pair in order.windows(2) {
        assert!(tree[pair[0]].path < tree[pair[1]].path);
    }
    assert_eq!(calculate_directory_checksum(&tree).len(), 64);
}

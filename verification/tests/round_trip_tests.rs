use layer_tool::archive::{compress_and_decompress, read_members, to_entries};
use layer_tool::tree::{sort_by_path, EntryKind, TreeEntry};
use layer_tool::utils::{
    calculate_directory_checksum, compress_data, create_tar_archive, decompress_data,
    extract_tar_archive, is_gzip_file,
};

struct Dice(u64);

impl Dice {
    fn roll(&mut self, sides: u64) -> u64 {
        self.0 ^= self.0 << 13;
        self.0 ^= self.0 >> 7;
        self.0 ^= self.0 << 17;
        self.0 % sides
    }
}

fn name(dice: &mut Dice) -> String {
    let letters = ["a", "b", "Z", "0", ".", "-", "_", " ", "é", "日", "ab", "x.y", "~"];
    let mut text = String::new();
    for _ in 0..1 + dice.roll(4) {
        text.push_str(letters[dice.roll(letters.len() as u64) as usize]);
    }
    if text == "." || text == ".." {
        text.push('x');
    }
    text
}

/// A tree of directories and files under made-up names, no path twice.
fn tree(dice: &mut Dice) -> Vec<TreeEntry> {
    let mut entries: Vec<TreeEntry> = vec![TreeEntry::directory(String::new())];
    let mut directories: Vec<String> = vec![String::new()];
    for _ in 0..dice.roll(30) {
        let parent = directories[dice.roll(directories.len() as u64) as usize].clone();
        let path = if parent.is_empty() { name(dice) } else { format!("{}/{}", parent, name(dice)) };
        if entries.iter().any(|e| e.path == path) {
            continue;
        }
        if dice.roll(3) == 0 {
            directories.push(path.clone());
            let mut d = TreeEntry::directory(path);
            d.mode = 0o700 + dice.roll(64) as u32;
            entries.push(d);
        } else {
            let mut content = Vec::new();
            for _ in 0..dice.roll(3) * dice.roll(700) {
                content.push(dice.roll(256) as u8);
            }
            let mut f = TreeEntry::file(path, content);
            f.mtime = dice.roll(2_000_000_000);
            f.uid = dice.roll(70_000);
            entries.push(f);
        }
    }
    entries
}

#[test]
fn packing_and_extracting_keeps_the_checksum_of_any_tree() {
    let mut dice = Dice(0x2545f4914f6cdd1d);
    for _ in 0..60 {
        let original = tree(&mut dice);
        let (stream, sum) = create_tar_archive(&original).unwrap();
        assert_eq!(sum, calculate_directory_checksum(&original));
        let extracted = extract_tar_archive(&stream).unwrap();
        assert_eq!(calculate_directory_checksum(&extracted), sum);
        // what comes out is the tree without its root, in the order of the paths
        let order = sort_by_path(&original);
        let expected: Vec<&TreeEntry> =
            order.iter().map(|&p| &original[p]).filter(|e| !e.path.is_empty()).collect();
        assert_eq!(extracted.len(), expected.len());
        for (got, want) in extracted.iter().zip(expected) {
            assert_eq!(got.path, want.path);
            assert_eq!(got.kind, want.kind);
            assert_eq!(got.content, want.content);
            assert_eq!(got.mode, want.mode);
            assert_eq!(got.mtime, want.mtime);
            assert_eq!(got.uid, want.uid);
            assert_eq!(got.gid, want.gid);
        }
    }
}

#[test]
fn the_checksum_of_any_tree_is_the_same_in_every_order_of_its_entries() {
    let mut dice = Dice(0x9e3779b97f4a7c15);
    for _ in 0..40 {
        let original = tree(&mut dice);
        let sum = calculate_directory_checksum(&original);
        let mut shuffled = original.clone();
        for i in (1..shuffled.len()).rev() {
            shuffled.swap(i, dice.roll(i as u64 + 1) as usize);
        }
        assert_eq!(calculate_directory_checksum(&shuffled), sum);
        shuffled.reverse();
        assert_eq!(calculate_directory_checksum(&shuffled), sum);
        assert_eq!(create_tar_archive(&shuffled).unwrap().0, create_tar_archive(&original).unwrap().0);
    }
}

#[test]
fn the_checksum_of_any_tree_changes_with_one_byte_or_one_entry() {
    let mut dice = Dice(0xdeadbeefcafef00d);
    for _ in 0..40 {
        let original = tree(&mut dice);
        let sum = calculate_directory_checksum(&original);
        for at in 0..original.len() {
            if original[at].path.is_empty() {
                continue;
            }
            let mut less = original.clone();
            less.remove(at);
            assert_ne!(calculate_directory_checksum(&less), sum);
            if original[at].kind == EntryKind::File && !original[at].content.is_empty() {
                let mut changed = original.clone();
                let byte = dice.roll(changed[at].content.len() as u64) as usize;
                changed[at].content[byte] ^= 1 << dice.roll(8);
                assert_ne!(calculate_directory_checksum(&changed), sum);
            }
        }
        let mut more = original.clone();
        more.push(TreeEntry::file("one more entry".to_string(), Vec::new()));
        assert_ne!(calculate_directory_checksum(&more), sum);
    }
}

#[test]
fn the_members_of_a_layer_stream_are_its_tree() {
    let mut dice = Dice(77);
    let original = tree(&mut dice);
    let (stream, _) = create_tar_archive(&original).unwrap();
    let members = read_members(&stream).unwrap();
    let direct = to_entries(&members);
    let checked = extract_tar_archive(&stream).unwrap();
    assert_eq!(direct.len(), checked.len());
    assert_eq!(calculate_directory_checksum(&direct), calculate_directory_checksum(&checked));
}

#[test]
fn compression_is_transparent_for_any_bytes() {
    let mut dice = Dice(0x0123456789abcdef);
    for round in 0..40 {
        let mut input = Vec::new();
        for _ in 0..dice.roll(5000) {
            input.push(if round % 2 == 0 { dice.roll(256) as u8 } else { dice.roll(3) as u8 });
        }
        let packed = compress_data(&input).unwrap();
        assert!(is_gzip_file(&packed));
        assert_eq!(decompress_data(&packed).unwrap(), input);
        assert_eq!(compress_and_decompress(&input).unwrap(), input);
        // compression gives the same stream for the same bytes
        assert_eq!(compress_data(&input).unwrap(), packed);
    }
}

#[test]
fn a_compressed_archive_is_told_from_an_uncompressed_one_whatever_its_name() {
    let (stream, _) = create_tar_archive(&vec![TreeEntry::file("f".to_string(), b"x".to_vec())]).unwrap();
    let bundle = layer_tool::archive::seal_bundle(b"{}", &stream, false).unwrap();
    let framed = layer_tool::archive::seal_bundle(b"{}", &stream, true).unwrap();
    assert!(!is_gzip_file(&stream));
    assert!(!is_gzip_file(&bundle));
    assert!(is_gzip_file(&framed));
    assert!(is_gzip_file(&compress_data(&framed).unwrap()));
}

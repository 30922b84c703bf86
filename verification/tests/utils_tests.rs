use std::path::Path;
use layer_tool::paths::{join_path, parent_dir, path_has_extension, with_extension};
use layer_tool::text::{
    chars_of, find_text, same_text, same_text_but_for_case, strip_leading, text_contains,
    text_ends_with, text_starts_with, trim_text,
};
use layer_tool::utils::{decimal, format_file_size, to_double};

/// The size in words as floating point arithmetic gives it.
fn by_floating_point(size: u64) -> String {
    let units = ["B", "KB", "MB", "GB", "TB"];
    let mut value = size as f64;
    let mut unit = 0;
    while value >= 1024.0 && unit < units.len() - 1 {
        value /= 1024.0;
        unit += 1;
    }
    if unit == 0 {
        format!("{} {}", value as u64, units[unit])
    } else {
        format!("{:.2} {}", value, units[unit])
    }
}

#[test]
fn sizes_below_1024_are_bytes() {
    assert_eq!(format_file_size(0), "0 B");
    assert_eq!(format_file_size(1), "1 B");
    assert_eq!(format_file_size(512), "512 B");
    assert_eq!(format_file_size(1023), "1023 B");
}

#[test]
fn sizes_from_1024_on_have_two_decimals_and_a_unit() {
    assert_eq!(format_file_size(1024), "1.00 KB");
    assert_eq!(format_file_size(1025), "1.00 KB");
    assert_eq!(format_file_size(1030), "1.01 KB");
    assert_eq!(format_file_size(1536), "1.50 KB");
    assert_eq!(format_file_size(1048575), "1024.00 KB");
    assert_eq!(format_file_size(1048576), "1.00 MB");
    assert_eq!(format_file_size(123456789), "117.74 MB");
    assert_eq!(format_file_size(1073741824), "1.00 GB");
    assert_eq!(format_file_size(1099511627776), "1.00 TB");
    assert_eq!(format_file_size(6047313952768), "5.50 TB");
}

#[test]
fn a_half_goes_to_the_even_neighbour() {
    // 1152 / 1024 = 1.125, 1184 / 1024 = 1.15625, 1216 / 1024 = 1.1875
    assert_eq!(format_file_size(1152), "1.12 KB");
    assert_eq!(format_file_size(1184), "1.16 KB");
    // 1.375 and 1.625
    assert_eq!(format_file_size(1408), "1.38 KB");
    assert_eq!(format_file_size(1664), "1.62 KB");
}

#[test]
fn the_largest_unit_is_the_terabyte() {
    assert_eq!(format_file_size(u64::MAX), "16777216.00 TB");
    assert_eq!(format_file_size(1 << 60), "1048576.00 TB");
    assert_eq!(format_file_size((1 << 53) + 1), "8192.00 TB");
}

#[test]
fn sizes_in_words_are_what_floating_point_arithmetic_gives() {
    let mut size: u64 = 0;
    while size < 5_000_000 {
        assert_eq!(format_file_size(size), by_floating_point(size), "size {}", size);
        size += 1 + size / 97;
    }
    for shift in 10..64 {
        let base = 1u64 << shift;
        for delta in [0u64, 1, 2, 3, 5, 511, 512, 513, 1023, 1024, 1025] {
            for size in [base.wrapping_add(delta), base.wrapping_sub(delta), base + base / 8, base + base / 200] {
                assert_eq!(format_file_size(size), by_floating_point(size), "size {}", size);
            }
        }
    }
    let mut seed: u64 = 0x9e3779b97f4a7c15;
    for _ in 0..20_000 {
        seed ^= seed << 13;
        seed ^= seed >> 7;
        seed ^= seed << 17;
        let size = seed >> (seed % 54);
        assert_eq!(format_file_size(size), by_floating_point(size), "size {}", size);
    }
}

#[test]
fn a_double_holds_the_nearest_number_it_can() {
    assert_eq!(to_double(0), 0);
    assert_eq!(to_double(1023), 1023);
    assert_eq!(to_double((1 << 53) - 1), (1 << 53) - 1);
    assert_eq!(to_double(1 << 53), 1 << 53);
    assert_eq!(to_double((1 << 53) + 1), 1 << 53);
    assert_eq!(to_double((1 << 53) + 2), (1 << 53) + 2);
    assert_eq!(to_double((1 << 53) + 3), (1 << 53) + 4);
    assert_eq!(to_double(u64::MAX), 1u128 << 64);
    for size in [(1u64 << 53) + 1, (1 << 60) + 129, u64::MAX, u64::MAX - 1024, u64::MAX - 1023] {
        assert_eq!(to_double(size), size as f64 as u128);
    }
}

#[test]
fn numbers_in_decimal_digits() {
    assert_eq!(decimal(0), "0");
    assert_eq!(decimal(9), "9");
    assert_eq!(decimal(10), "10");
    assert_eq!(decimal(12345678901234567890), "12345678901234567890");
}

#[test]
fn the_parent_of_a_path() {
    assert_eq!(
        parent_dir("/var/lib/docker/overlay2/abc/merged"),
        Some("/var/lib/docker/overlay2/abc".to_string())
    );
    assert_eq!(parent_dir("/a"), Some("/".to_string()));
    assert_eq!(parent_dir("a/b"), Some("a".to_string()));
    assert_eq!(parent_dir("a"), Some("".to_string()));
    assert_eq!(parent_dir("/a/b/"), Some("/a".to_string()));
    assert_eq!(parent_dir("/a//b"), Some("/a".to_string()));
    assert_eq!(parent_dir("/a/./b"), Some("/a".to_string()));
    assert_eq!(parent_dir("/a/b/."), Some("/a".to_string()));
    assert_eq!(parent_dir("./a"), Some(".".to_string()));
    assert_eq!(parent_dir("a/.."), Some("a".to_string()));
    assert_eq!(parent_dir("."), Some("".to_string()));
    assert_eq!(parent_dir(".."), Some("".to_string()));
    assert_eq!(parent_dir("/."), None);
    assert_eq!(parent_dir("/"), None);
    assert_eq!(parent_dir("///"), None);
    assert_eq!(parent_dir(""), None);
}

#[test]
fn a_name_inside_a_directory() {
    assert_eq!(join_path("/a/b", "upper"), "/a/b/upper");
    assert_eq!(join_path("/a/b/", "upper"), "/a/b/upper");
    assert_eq!(join_path("/", "upper"), "/upper");
    assert_eq!(join_path("", "upper"), "upper");
    assert_eq!(join_path("/a/b", "/upper"), "/upper");
    assert_eq!(join_path("a", ""), "a/");
}

#[test]
fn a_path_under_another_extension() {
    assert_eq!(with_extension("out", "tar.gz"), "out.tar.gz");
    assert_eq!(with_extension("out.tar", "tar.gz"), "out.tar.gz");
    assert_eq!(with_extension("out.txt", "tar.gz"), "out.tar.gz");
    assert_eq!(with_extension("/tmp/a.b/out", "tar.gz"), "/tmp/a.b/out.tar.gz");
    assert_eq!(with_extension("/tmp/archive.v1.bin", "backup"), "/tmp/archive.v1.backup");
    assert_eq!(with_extension(".hidden", "backup"), ".hidden.backup");
    assert_eq!(with_extension("/var/lib/docker/overlay2/abc/upper", "backup"), "/var/lib/docker/overlay2/abc/upper.backup");
    assert_eq!(with_extension("dir/", "x"), "dir.x");
    assert_eq!(with_extension("/t/upper/", "backup"), "/t/upper.backup");
    assert_eq!(with_extension("/t/upper.old//", "backup"), "/t/upper.backup");
    assert_eq!(with_extension("a/..", "x"), "a/..");
    assert_eq!(with_extension("a/.", "x"), "a.x");
    assert_eq!(with_extension("a.b/./", "x"), "a.x");
    assert_eq!(with_extension("./", "x"), "./");
    assert_eq!(with_extension("archive.tar", ""), "archive");
    assert_eq!(with_extension("dir/", ""), "dir");
    assert_eq!(with_extension(".", "x"), ".");
    assert_eq!(with_extension("/", "x"), "/");
    assert_eq!(with_extension("", "x"), "");
    assert_eq!(with_extension("archive.", "x"), "archive.x");
    assert!(path_has_extension("a.b"));
    assert!(path_has_extension("/x/a.tar.gz/"));
    assert!(path_has_extension("a."));
    assert!(!path_has_extension("a"));
    assert!(!path_has_extension(".hidden"));
    assert!(!path_has_extension("a.d/b"));
    assert!(!path_has_extension(".."));
    assert!(!path_has_extension(""));
}

#[test]
fn white_space_is_taken_off_both_ends() {
    assert_eq!(trim_text("  /var/lib \n"), "/var/lib");
    assert_eq!(trim_text("\t\r\n"), "");
    assert_eq!(trim_text(""), "");
    assert_eq!(trim_text("a b"), "a b");
    assert_eq!(trim_text("\u{a0}\u{2003}x\u{3000}\u{85}"), "x");
    assert_eq!(trim_text("\u{200b}x"), "\u{200b}x");
    for text in ["  a  ", "\u{1680}b\u{2028}", "c\u{2029}\u{202f}\u{205f}", "\u{b}\u{c}d", "\u{feff}e"] {
        assert_eq!(trim_text(text), text.trim());
    }
}

#[test]
fn leading_characters_are_taken_off() {
    assert_eq!(strip_leading("/name", '/'), "name");
    assert_eq!(strip_leading("///name/", '/'), "name/");
    assert_eq!(strip_leading("name", '/'), "name");
    assert_eq!(strip_leading("//", '/'), "");
}

#[test]
fn text_is_searched_by_characters() {
    assert!(text_contains("UpperDir", "Dir"));
    assert!(!text_contains("Upperdir", "Dir"));
    assert!(text_contains("abc", ""));
    assert!(text_starts_with("sha256:abc", "sha256:"));
    assert!(!text_starts_with("sha25", "sha256:"));
    assert!(text_ends_with("out.tar.gz", ".gz"));
    assert!(!text_ends_with("gz", ".gz"));
    assert!(same_text_but_for_case("DeAd", "dead"));
    assert!(same_text_but_for_case("dead", "DEAD"));
    assert!(same_text_but_for_case("[x]", "[X]"));
    assert!(!same_text_but_for_case("dead", "deed"));
    assert!(!same_text_but_for_case("dead", "dea"));
    assert!(!same_text_but_for_case("@", "`"));
    assert!(!same_text_but_for_case("\u{c9}", "\u{e9}"));
    assert!(same_text("é", "é"));
    assert!(!same_text("a", "b"));
    assert!(!same_text("a", "ab"));
    assert_eq!(find_text(&chars_of("ünïcödé/x"), &chars_of("/")), Some(7));
    assert_eq!(find_text(&chars_of("aXbX"), &chars_of("X")), Some(1));
    assert_eq!(find_text(&chars_of("abc"), &chars_of("d")), None);
    assert_eq!(strip_leading("üünïcödé", 'ü'), "nïcödé");
}

/// Every text of up to `len` characters out of `a`, `.` and `/`.
fn small_paths(len: usize) -> Vec<String> {
    let mut all = vec![String::new()];
    let mut last = vec![String::new()];
    for _ in 0..len {
        let mut next = Vec::new();
        for p in &last {
            for c in ['a', '.', '/'] {
                next.push(format!("{}{}", p, c));
            }
        }
        all.extend(next.iter().cloned());
        last = next;
    }
    all
}

#[test]
fn paths_are_taken_apart_as_the_standard_library_does() {
    for p in small_paths(7) {
        let path = Path::new(&p);
        assert_eq!(parent_dir(&p), path.parent().map(|d| d.to_str().unwrap().to_string()), "{:?}", p);
        assert_eq!(path_has_extension(&p), path.extension().is_some(), "{:?}", p);
        // a name with nothing but a dot in front of its extension is left
        // aside: what becomes of it there depends on what follows the name
        let dots_alone = path.file_stem().map_or(false, |stem| stem == ".");
        if !dots_alone {
            assert_eq!(with_extension(&p, "backup"), path.with_extension("backup").to_str().unwrap(), "{:?}", p);
            assert_eq!(with_extension(&p, ""), path.with_extension("").to_str().unwrap(), "{:?}", p);
        }
        assert_eq!(join_path(&p, "upper"), path.join("upper").to_str().unwrap(), "{:?}", p);
    }
    for p in small_paths(3) {
        for q in small_paths(3) {
            assert_eq!(join_path(&p, &q), Path::new(&p).join(&q).to_str().unwrap(), "{:?} {:?}", p, q);
        }
    }
}

//! The package format: what is read back of what was written, and what is
//! refused.

use os101::package::{build, crc32, is_valid_name, parse, slugify};

/// A minimal but structurally valid ELF64 x86-64 executable header.
fn fake_elf() -> Vec<u8> {
    let mut e = vec![0u8; 64];
    e[0..4].copy_from_slice(&[0x7F, b'E', b'L', b'F']);
    e[4] = 2; // 64-bit
    e[5] = 1; // little-endian
    e[6] = 1; // ELF version
    e[16..18].copy_from_slice(&2u16.to_le_bytes()); // ET_EXEC
    e[18..20].copy_from_slice(&0x3Eu16.to_le_bytes()); // x86-64
    e
}

fn manifest() -> &'static str {
    "name = Test App\nversion = 2.1.0\ndescription = hello\n"
}

fn good_package() -> Vec<u8> {
    build(manifest(), &fake_elf())
}

#[test]
fn round_trips_a_package() {
    let pkg = parse(&good_package()).expect("valid package should parse");
    assert_eq!(pkg.name, "Test App");
    assert_eq!(pkg.version, "2.1.0");
    assert_eq!(pkg.description, "hello");
    assert_eq!(pkg.payload, fake_elf());
}

#[test]
fn defaults_missing_optional_fields() {
    let pkg = parse(&build("name = Bare\n", &fake_elf())).unwrap();
    assert_eq!(pkg.version, "0.0.0");
    assert_eq!(pkg.description, "");
}

#[test]
fn manifest_ignores_comments_and_blank_lines() {
    let text = "# a comment\n\n  name = Spaced  \n\nversion=9\n";
    let pkg = parse(&build(text, &fake_elf())).unwrap();
    assert_eq!(pkg.name, "Spaced");
    assert_eq!(pkg.version, "9");
}

#[test]
fn rejects_short_input() {
    assert!(parse(b"").is_err());
    assert!(parse(b"OS101PK").is_err());
}

#[test]
fn rejects_bad_magic() {
    let mut bytes = good_package();
    bytes[0] = b'X';
    assert!(parse(&bytes).is_err());
}

#[test]
fn rejects_unknown_version() {
    let mut bytes = good_package();
    bytes[8..10].copy_from_slice(&99u16.to_le_bytes());
    assert!(parse(&bytes).is_err());
}

#[test]
fn rejects_unknown_flags() {
    let mut bytes = good_package();
    bytes[10..12].copy_from_slice(&1u16.to_le_bytes());
    assert!(parse(&bytes).is_err());
}

#[test]
fn rejects_truncated_payload() {
    let mut bytes = good_package();
    bytes.truncate(bytes.len() - 8);
    assert!(parse(&bytes).is_err());
}

/// Lengths that sum past `usize::MAX` must be caught before any slicing.
#[test]
fn rejects_length_overflow() {
    let mut bytes = good_package();
    bytes[12..16].copy_from_slice(&u32::MAX.to_le_bytes());
    bytes[16..20].copy_from_slice(&u32::MAX.to_le_bytes());
    assert!(parse(&bytes).is_err());
}

#[test]
fn rejects_corrupted_payload() {
    let mut bytes = good_package();
    let last = bytes.len() - 1;
    bytes[last] ^= 0xFF;
    assert_eq!(
        parse(&bytes).unwrap_err(),
        "package payload checksum mismatch"
    );
}

#[test]
fn rejects_missing_name() {
    assert!(parse(&build("version = 1\n", &fake_elf())).is_err());
}

#[test]
fn rejects_hostile_name() {
    // Path separators would lead out of the directory that packages are stored in.
    assert!(parse(&build("name = ../../etc\n", &fake_elf())).is_err());
    assert!(parse(&build("name = \n", &fake_elf())).is_err());
}

#[test]
fn rejects_non_elf_payload() {
    assert!(parse(&build(manifest(), &[0u8; 128])).is_err());
}

#[test]
fn rejects_wrong_architecture() {
    let mut elf = fake_elf();
    elf[18..20].copy_from_slice(&0xB7u16.to_le_bytes()); // aarch64
    assert!(parse(&build(manifest(), &elf)).is_err());
}

#[test]
fn rejects_32_bit_payload() {
    let mut elf = fake_elf();
    elf[4] = 1;
    assert!(parse(&build(manifest(), &elf)).is_err());
}

/// The SDK emits ET_DYN, so both executable types must be accepted.
#[test]
fn accepts_pie_payload() {
    let mut elf = fake_elf();
    elf[16..18].copy_from_slice(&3u16.to_le_bytes()); // ET_DYN
    assert!(parse(&build(manifest(), &elf)).is_ok());
}

#[test]
fn crc32_matches_known_vector() {
    assert_eq!(crc32(b"123456789"), 0xCBF4_3926);
    assert_eq!(crc32(b""), 0);
}

#[test]
fn slugify_produces_safe_file_names() {
    assert_eq!(slugify("Demo App"), "demo-app");
    assert_eq!(slugify("My  Cool_Thing!"), "my-cool-thing");
    assert_eq!(slugify("!!!"), "app");
}

#[test]
fn name_validation_covers_edges() {
    assert!(is_valid_name("Fine Name_1-2"));
    assert!(!is_valid_name(""));
    assert!(!is_valid_name("has/slash"));
    assert!(!is_valid_name("has.dot"));
    assert!(!is_valid_name(&"x".repeat(33)));
}

#[test]
fn every_damaged_byte_is_noticed() {
    let good = good_package();
    let start = good.len() - fake_elf().len();
    for i in start..good.len() {
        let mut bad = good.clone();
        bad[i] = bad[i].wrapping_add(1);
        assert_eq!(parse(&bad).unwrap_err(), "package payload checksum mismatch");
    }
    assert_ne!(crc32(b"aaaa"), crc32(b"aaab"));
}

#[test]
fn each_refusal_has_its_reason() {
    assert_eq!(parse(b"").unwrap_err(), "not a package: too short");
    let mut bytes = good_package();
    bytes[0] = b'X';
    assert_eq!(parse(&bytes).unwrap_err(), "not a package: bad magic");
    let mut bytes = good_package();
    bytes[8] = 9;
    assert_eq!(parse(&bytes).unwrap_err(), "unsupported package format version");
    let mut bytes = good_package();
    bytes[10] = 1;
    assert_eq!(parse(&bytes).unwrap_err(), "unsupported package flags");
    let mut bytes = good_package();
    bytes[12..16].copy_from_slice(&5_000u32.to_le_bytes());
    assert_eq!(parse(&bytes).unwrap_err(), "package manifest too large");
    let mut bytes = good_package();
    bytes[16..20].copy_from_slice(&5_000_000u32.to_le_bytes());
    assert_eq!(parse(&bytes).unwrap_err(), "package payload too large");
    let mut bytes = good_package();
    bytes.pop();
    assert_eq!(parse(&bytes).unwrap_err(), "package truncated");
    let mut bytes = good_package();
    bytes[24] = 0xff;
    assert_eq!(parse(&bytes).unwrap_err(), "package manifest is not valid UTF-8");
}

#[test]
fn checksums_of_texts_of_one_length_add_up() {
    let a = b"The quick brown fox";
    let b = b"jumps over the lazy";
    let both: Vec<u8> = a.iter().zip(b).map(|(x, y)| x ^ y).collect();
    let zero = vec![0u8; a.len()];
    assert_eq!(crc32(&both), crc32(a) ^ crc32(b) ^ crc32(&zero));
    assert_eq!(crc32(b"123456789"), 0xCBF4_3926);
}

#[test]
fn damage_to_four_bytes_in_a_row_is_noticed() {
    let whole = good_package();
    let mark = crc32(&whole);
    for at in 0..whole.len() - 3 {
        for d in [[1u8, 0, 0, 0], [0x80, 0, 0, 1], [0xff, 0xff, 0xff, 0xff], [0, 0, 0x10, 0]] {
            let mut bad = whole.clone();
            for (i, x) in d.iter().enumerate() {
                bad[at + i] ^= x;
            }
            assert_ne!(crc32(&bad), mark);
        }
    }
}

use qcow2::extension::Extension;
use qcow2::extension::FeatureName;
use qcow2::extension::FeatureNameTable;
use qcow2::extension::UnknownExtension;
use qcow2::feature::Feature;
use qcow2::feature::FeatureKind;
use qcow2::Error;

const NAMES: &[&str] = &["dirty", "corrupt"];

fn table(entries: &[(u8, u8, &str)]) -> FeatureNameTable {
    let mut t = FeatureNameTable::new();
    for &(kind, bit, name) in entries {
        t.0.push(FeatureName { kind, bit, name: name.to_owned() });
    }
    t
}

fn record(kind: u8, bit: u8, name: &[u8]) -> Vec<u8> {
    let mut r = vec![0u8; 48];
    r[0] = kind;
    r[1] = bit;
    r[2..2 + name.len()].copy_from_slice(name);
    r
}

#[test]
fn a_new_feature_set_is_empty() {
    let f = Feature::new(FeatureKind::Incompatible, NAMES);
    assert_eq!(f.bits(), 0);
    assert!(!f.enabled(1));
    assert_eq!(f.to_string(&FeatureNameTable::new()), "");
}

#[test]
fn bits_are_set_enabled_and_disabled() {
    let mut f = Feature::new(FeatureKind::Compatible, NAMES);
    f.set(0b1010);
    assert_eq!(f.bits(), 0b1010);
    assert!(f.enabled(0b10));
    assert!(!f.enabled(0b100));
    assert!(f.enabled(0b110));
    f.enable(0b100);
    assert_eq!(f.bits(), 0b1110);
    f.disable(0b1010);
    assert_eq!(f.bits(), 0b100);
    f.disable(0b1);
    assert_eq!(f.bits(), 0b100);
}

#[test]
fn unknown_keeps_the_bits_above_the_names() {
    let mut f = Feature::new(FeatureKind::Incompatible, NAMES);
    f.set(0b1111);
    assert_eq!(f.unknown().bits(), 0b1100);
    f.set(0b11);
    assert_eq!(f.unknown().bits(), 0);
    f.set(u64::MAX);
    assert_eq!(f.unknown().bits(), u64::MAX - 3);
    let none: &'static [&'static str] = &[];
    let mut g = Feature::new(FeatureKind::Autoclear, none);
    g.set(0b101);
    assert_eq!(g.unknown().bits(), 0b101);
}

#[test]
fn set_bits_render_by_name_from_the_lowest() {
    let mut f = Feature::new(FeatureKind::Incompatible, NAMES);
    let t = table(&[(0, 4, "shiny"), (1, 5, "other kind"), (0, 4, "second")]);
    f.set(0b1);
    assert_eq!(f.to_string(&t), "dirty");
    f.set(0b11);
    assert_eq!(f.to_string(&t), "dirty | corrupt");
    f.set(0b10010);
    assert_eq!(f.to_string(&t), "corrupt | shiny");
    f.set(0b100000);
    assert_eq!(f.to_string(&t), "bit 5 of Incompatible");
    f.set(1 << 63 | 1);
    assert_eq!(f.to_string(&t), "dirty | bit 63 of Incompatible");
}

#[test]
fn rendering_names_the_kind_of_unnamed_bits() {
    let t = FeatureNameTable::new();
    let mut c = Feature::new(FeatureKind::Compatible, &["lazy refcounts"]);
    c.set(0b110);
    assert_eq!(c.to_string(&t), "bit 1 of Compatible | bit 2 of Compatible");
    let mut a = Feature::new(FeatureKind::Autoclear, &["bitmaps"]);
    a.set(0b11);
    assert_eq!(a.to_string(&t), "bitmaps | bit 1 of Autoclear");
}

#[test]
fn known_bits_pass_and_unknown_bits_are_reported() {
    let t = table(&[(0, 2, "future")]);
    let mut f = Feature::new(FeatureKind::Incompatible, NAMES);
    f.set(0b11);
    assert!(f.ensure_known(&t).is_ok());
    f.set(0);
    assert!(f.ensure_known(&t).is_ok());
    f.set(0b101);
    match f.ensure_known(&t) {
        Err(Error::UnsupportedFeature(s)) => assert_eq!(s, "future"),
        _ => panic!("an unknown bit was accepted"),
    }
    f.set(0b1100);
    match f.ensure_known(&t) {
        Err(Error::UnsupportedFeature(s)) => assert_eq!(s, "future | bit 3 of Incompatible"),
        _ => panic!("an unknown bit was accepted"),
    }
}

#[test]
fn kinds_have_codes_and_names() {
    assert_eq!(FeatureKind::Incompatible.code(), 0);
    assert_eq!(FeatureKind::Compatible.code(), 1);
    assert_eq!(FeatureKind::Autoclear.code(), 2);
    assert_eq!(FeatureKind::Incompatible.name(), "Incompatible");
    assert_eq!(FeatureKind::Compatible.name(), "Compatible");
    assert_eq!(FeatureKind::Autoclear.name(), "Autoclear");
}

#[test]
fn the_table_names_a_bit_by_its_first_entry() {
    let t = table(&[(0, 1, "a"), (1, 1, "b"), (0, 1, "c"), (2, 0, "d")]);
    assert_eq!(t.name(FeatureKind::Incompatible, 1), "a");
    assert_eq!(t.name(FeatureKind::Compatible, 1), "b");
    assert_eq!(t.name(FeatureKind::Autoclear, 0), "d");
    assert_eq!(t.name(FeatureKind::Autoclear, 1), "bit 1 of Autoclear");
    assert_eq!(t.name(FeatureKind::Incompatible, 0), "bit 0 of Incompatible");
    assert_eq!(FeatureNameTable::new().name(FeatureKind::Compatible, 63), "bit 63 of Compatible");
}

#[test]
fn the_table_reads_its_records() {
    let mut bytes = record(0, 0, b"dirty bit");
    bytes.extend(record(1, 0, b"lazy refcounts"));
    bytes.extend(record(2, 63, b"x"));
    let mut t = FeatureNameTable::new();
    assert_eq!(t.extension_code(), 0x6803f857);
    match t.read(&bytes) {
        Ok(n) => assert_eq!(n, 144),
        Err(_) => panic!("a good table was refused"),
    }
    assert_eq!(t.0.len(), 3);
    assert_eq!((t.0[0].kind, t.0[0].bit, t.0[0].name.as_str()), (0, 0, "dirty bit"));
    assert_eq!((t.0[1].kind, t.0[1].bit, t.0[1].name.as_str()), (1, 0, "lazy refcounts"));
    assert_eq!((t.0[2].kind, t.0[2].bit, t.0[2].name.as_str()), (2, 63, "x"));
}

#[test]
fn an_empty_payload_is_an_empty_table() {
    let mut t = FeatureNameTable::new();
    assert!(matches!(t.read(&[]), Ok(0)));
    assert_eq!(t.0.len(), 0);
}

#[test]
fn a_name_ends_at_its_first_zero_byte() {
    let mut r = record(0, 3, b"abc");
    r[10] = b'z';
    r[20] = 0xff;
    let mut t = FeatureNameTable::new();
    assert!(t.read(&r).is_ok());
    assert_eq!(t.0[0].name, "abc");
    let full = record(1, 2, &[b'n'; 46]);
    assert!(t.read(&full).is_ok());
    assert_eq!(t.0[1].name.len(), 46);
    let empty = record(1, 2, b"");
    assert!(t.read(&empty).is_ok());
    assert_eq!(t.0[2].name, "");
}

#[test]
fn a_bad_kind_is_refused() {
    let mut t = FeatureNameTable::new();
    match t.read(&record(3, 0, b"x")) {
        Err(Error::FileFormat(s)) => assert_eq!(s, "unknown feature type in feature name table"),
        _ => panic!("kind 3 was accepted"),
    }
    assert_eq!(t.0.len(), 0);
    // The kind is checked before the bit is read.
    assert!(matches!(t.read(&[200]), Err(Error::FileFormat(_))));
}

#[test]
fn a_bad_bit_is_refused() {
    let mut t = FeatureNameTable::new();
    match t.read(&record(0, 64, b"x")) {
        Err(Error::FileFormat(s)) => assert_eq!(s, "bit number too high in feature name table"),
        _ => panic!("bit 64 was accepted"),
    }
    assert!(t.read(&record(0, 63, b"x")).is_ok());
}

#[test]
fn a_name_that_is_not_ascii_is_refused() {
    let mut t = FeatureNameTable::new();
    match t.read(&record(0, 1, &[b'a', 0x80, b'b'])) {
        Err(Error::FileFormat(s)) => assert_eq!(s, "unsafe characters in feature name table"),
        _ => panic!("a byte above 0x7f was accepted"),
    }
    match t.read(&record(0, 1, &[0xc3, 0xa9])) {
        Err(Error::FileFormat(s)) => assert_eq!(s, "unsafe characters in feature name table"),
        _ => panic!("a byte above 0x7f was accepted"),
    }
    assert!(t.read(&record(0, 1, &[0x7f, 0x01])).is_ok());
    assert_eq!(t.0[0].name.as_bytes(), &[0x7f, 0x01]);
}

#[test]
fn a_record_that_is_cut_short_fails_as_a_read() {
    let good = record(0, 0, b"dirty bit");
    let mut t = FeatureNameTable::new();
    match t.read(&good[..1]) {
        Err(Error::Io(e)) => assert_eq!(e.kind(), std::io::ErrorKind::UnexpectedEof),
        _ => panic!("a cut record was read"),
    }
    assert!(matches!(t.read(&good[..2]), Err(Error::Io(_))));
    assert!(matches!(t.read(&good[..47]), Err(Error::Io(_))));
    assert_eq!(t.0.len(), 0);
    let mut two = good.clone();
    two.extend(&good[..20]);
    assert!(matches!(t.read(&two), Err(Error::Io(_))));
    // The record before the failure stays.
    assert_eq!(t.0.len(), 1);
}

#[test]
fn an_unknown_extension_keeps_its_payload() {
    let mut u = UnknownExtension::new(0xabcd);
    assert_eq!(u.code, 0xabcd);
    assert_eq!(u.extension_code(), 0xabcd);
    assert!(u.data.is_empty());
    assert!(matches!(u.read(&[1, 2, 3]), Ok(3)));
    assert_eq!(u.data, vec![1, 2, 3]);
    assert!(matches!(u.read(&[]), Ok(0)));
    assert_eq!(u.data, vec![1, 2, 3]);
}

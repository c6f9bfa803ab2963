use arceboot::dtb::{classify_value, DtbParser, DumpLine, PropValue};

fn push_u32(v: &mut Vec<u8>, x: u32) {
    v.extend_from_slice(&x.to_be_bytes());
}

fn push_name(v: &mut Vec<u8>, name: &str) {
    v.extend_from_slice(name.as_bytes());
    v.push(0);
    while v.len() % 4 != 0 {
        v.push(0);
    }
}

fn push_prop(v: &mut Vec<u8>, nameoff: u32, value: &[u8]) {
    push_u32(v, 3);
    push_u32(v, value.len() as u32);
    push_u32(v, nameoff);
    v.extend_from_slice(value);
    while v.len() % 4 != 0 {
        v.push(0);
    }
}

/// A blob with a root node holding `#address-cells`, a `chosen` node with
/// `bootargs` and a `memory@80000000` node with `reg`.
fn sample_blob() -> Vec<u8> {
    let mut s = Vec::new();
    push_u32(&mut s, 1);
    push_name(&mut s, "");
    push_prop(&mut s, 0, &[0, 0, 0, 2]);
    push_u32(&mut s, 1);
    push_name(&mut s, "chosen");
    push_prop(&mut s, 15, b"console=ttyS");
    push_u32(&mut s, 2);
    push_u32(&mut s, 1);
    push_name(&mut s, "memory@80000000");
    push_prop(&mut s, 24, &[0, 0, 0, 0, 0x80, 0, 0, 0]);
    push_u32(&mut s, 2);
    push_u32(&mut s, 2);
    push_u32(&mut s, 9);
    let strings = b"#address-cells\0bootargs\0reg\0";
    let off_struct = 40 + 16;
    let off_strings = off_struct + s.len();
    let total = off_strings + strings.len();
    let mut blob = Vec::new();
    push_u32(&mut blob, 0xd00dfeed);
    push_u32(&mut blob, total as u32);
    push_u32(&mut blob, off_struct as u32);
    push_u32(&mut blob, off_strings as u32);
    push_u32(&mut blob, 40);
    push_u32(&mut blob, 17);
    push_u32(&mut blob, 16);
    push_u32(&mut blob, 0);
    push_u32(&mut blob, strings.len() as u32);
    push_u32(&mut blob, s.len() as u32);
    blob.extend_from_slice(&[0u8; 16]);
    blob.extend_from_slice(&s);
    blob.extend_from_slice(strings);
    blob
}

#[test]
fn dtb_new_checks_header() {
    assert!(DtbParser::new(sample_blob()).is_some());
    let mut bad = sample_blob();
    bad[0] = 0;
    assert!(DtbParser::new(bad).is_none());
    assert!(DtbParser::new(vec![0u8; 10]).is_none());
    let mut short = sample_blob();
    short.truncate(100);
    assert!(DtbParser::new(short).is_none());
    let mut longer = sample_blob();
    let n = longer.len();
    longer.extend_from_slice(&[0xaa; 8]);
    let p = DtbParser::new(longer).unwrap();
    assert_eq!(p.get_memory_view_read_only().len(), n);
}

#[test]
fn dtb_find_node_paths() {
    let mut p = DtbParser::new(sample_blob()).unwrap();
    let chosen = p.find_node("/chosen").unwrap();
    assert_eq!(chosen.start_offset, 6);
    let same = p.find_node("chosen/").unwrap();
    assert_eq!(same.start_offset, chosen.start_offset);
    assert_eq!(same.end_offset, chosen.end_offset);
    let root = p.find_node("/").unwrap();
    assert_eq!(root.start_offset, 0);
    assert!(p.find_node("/memory@80000000").is_some());
    assert!(p.find_node("/nonexistent/node").is_none());
}

#[test]
fn dtb_read_property_value() {
    let mut p = DtbParser::new(sample_blob()).unwrap();
    assert_eq!(p.read_property_value("/chosen", "bootargs"), Some(b"console=ttyS".to_vec()));
    assert_eq!(p.read_property_value("/memory@80000000", "reg"), Some(vec![0, 0, 0, 0, 0x80, 0, 0, 0]));
    assert_eq!(p.read_property_value("/", "#address-cells"), Some(vec![0, 0, 0, 2]));
    assert_eq!(p.read_property_value("/chosen", "reg"), None);
    assert_eq!(p.read_property_value("/absent", "bootargs"), None);
}

#[test]
fn dtb_modify_shorter_in_place() {
    let mut p = DtbParser::new(sample_blob()).unwrap();
    let before = p.get_memory_view_read_only().len();
    assert!(p.modify_property("/chosen", "bootargs", "test"));
    assert_eq!(p.get_memory_view_read_only().len(), before);
    assert_eq!(p.read_property_value("/chosen", "bootargs"), Some(b"test".to_vec()));
}

#[test]
fn dtb_modify_longer_rebuilds() {
    let mut p = DtbParser::new(sample_blob()).unwrap();
    let before = p.get_memory_view_read_only().len();
    let longer = "console=ttyS0,115200 root=/dev/mmcblk0p2 rw rootwait custom_arg=hello_world_long_string";
    assert!(p.modify_property("/chosen", "bootargs", longer));
    let after = p.get_memory_view_read_only().len();
    // The value is padded to a four-byte boundary: 87 bytes take 88.
    assert_eq!(after, before + 88 - 12);
    assert_eq!(after % 4, 0);
    assert_eq!(p.read_property_value("/chosen", "bootargs"), Some(longer.as_bytes().to_vec()));
}

#[test]
fn dtb_modify_longer_keeps_following_nodes() {
    let mut p = DtbParser::new(sample_blob()).unwrap();
    // A value whose length is a multiple of four keeps the blocks after it aligned.
    let longer = "console=ttyS0,115200 earlycon";
    let longer = &longer[..28];
    assert!(p.modify_property("/chosen", "bootargs", longer));
    assert_eq!(p.read_property_value("/chosen", "bootargs"), Some(longer.as_bytes().to_vec()));
    assert_eq!(p.read_property_value("/memory@80000000", "reg"), Some(vec![0, 0, 0, 0, 0x80, 0, 0, 0]));
}

#[test]
fn dtb_modify_longer_unaligned_keeps_following_nodes() {
    let mut p = DtbParser::new(sample_blob()).unwrap();
    let before = p.get_memory_view_read_only().len();
    // 29 bytes: the value is padded to 32 and the blocks after it stay aligned.
    let longer = "console=ttyS0,115200 earlycon";
    assert_eq!(longer.len(), 29);
    assert!(p.modify_property("/chosen", "bootargs", longer));
    assert_eq!(p.get_memory_view_read_only().len(), before + 32 - 12);
    assert_eq!(p.read_property_value("/chosen", "bootargs"), Some(longer.as_bytes().to_vec()));
    assert_eq!(p.read_property_value("/memory@80000000", "reg"), Some(vec![0, 0, 0, 0, 0x80, 0, 0, 0]));
    assert_eq!(p.dump_all().len(), 7);
}

#[test]
fn dtb_modify_missing_fails() {
    let mut p = DtbParser::new(sample_blob()).unwrap();
    assert!(!p.modify_property("/chosen", "non-existent-prop", "test"));
    assert!(!p.modify_property("/nonexistent/node", "prop", "value"));
    assert_eq!(p.try_modify_property("/chosen", "bootargs", "abc"), Some(true));
    assert_eq!(p.read_property_value("/chosen", "bootargs"), Some(b"abc".to_vec()));
}

#[test]
fn dtb_dump_all_lists_structure() {
    let mut p = DtbParser::new(sample_blob()).unwrap();
    let lines = p.dump_all();
    assert_eq!(lines.len(), 7);
    assert!(matches!(lines[0], DumpLine::Root));
    match &lines[1] {
        DumpLine::Property { depth, key, value } => {
            assert_eq!(*depth, 1);
            assert_eq!(key.as_deref(), Some(&b"#address-cells"[..]));
            assert_eq!(value, &vec![0, 0, 0, 2]);
        }
        _ => panic!("expected a property"),
    }
    match &lines[2] {
        DumpLine::Node { depth, name, path } => {
            assert_eq!(*depth, 1);
            assert_eq!(name, &b"chosen".to_vec());
            assert_eq!(path, &b"/chosen".to_vec());
        }
        _ => panic!("expected a node"),
    }
    match &lines[4] {
        DumpLine::Node { path, .. } => assert_eq!(path, &b"/memory@80000000".to_vec()),
        _ => panic!("expected a node"),
    }
    assert!(matches!(lines[5], DumpLine::Property { .. }));
    assert!(matches!(lines[6], DumpLine::End));
}

#[test]
fn dtb_classify_values() {
    assert!(matches!(classify_value(&[]), PropValue::Empty));
    match classify_value(b"hello\0\0") {
        PropValue::Text(t) => assert_eq!(t, b"hello".to_vec()),
        _ => panic!("expected text"),
    }
    match classify_value(&[0, 0, 0, 2, 0xff, 0, 0, 1]) {
        PropValue::Raw { bytes, words } => {
            assert_eq!(bytes.len(), 8);
            assert_eq!(words, Some(vec![2, 0xff00_0001]));
        }
        _ => panic!("expected raw bytes"),
    }
    match classify_value(&[1, 2, 3]) {
        PropValue::Raw { words, .. } => assert_eq!(words, None),
        _ => panic!("expected raw bytes"),
    }
}

#[test]
fn dtb_node_names_decoded_lossily() {
    // A node whose name is not valid UTF-8 is shown with the replacement character.
    let mut s = Vec::new();
    push_u32(&mut s, 1);
    push_name(&mut s, "");
    push_u32(&mut s, 1);
    s.extend_from_slice(&[b'a', 0xff, b'b', 0]);
    push_u32(&mut s, 2);
    push_u32(&mut s, 2);
    push_u32(&mut s, 9);
    let off_struct = 40 + 16;
    let off_strings = off_struct + s.len();
    let mut blob = Vec::new();
    push_u32(&mut blob, 0xd00dfeed);
    push_u32(&mut blob, off_strings as u32);
    push_u32(&mut blob, off_struct as u32);
    push_u32(&mut blob, off_strings as u32);
    push_u32(&mut blob, 40);
    push_u32(&mut blob, 17);
    push_u32(&mut blob, 16);
    push_u32(&mut blob, 0);
    push_u32(&mut blob, 0);
    push_u32(&mut blob, s.len() as u32);
    blob.extend_from_slice(&[0u8; 16]);
    blob.extend_from_slice(&s);
    let mut p = DtbParser::new(blob).unwrap();
    let lines = p.try_dump_all().unwrap();
    match &lines[1] {
        DumpLine::Node { name, .. } => assert_eq!(name, &"a\u{fffd}b".as_bytes().to_vec()),
        _ => panic!("expected a node"),
    }
    assert!(p.find_node("/a\u{fffd}b").is_some());
}

#[test]
fn dtb_unbalanced_dump_refused() {
    let mut s = Vec::new();
    push_u32(&mut s, 2);
    push_u32(&mut s, 9);
    let off_struct = 40 + 16;
    let total = off_struct + s.len();
    let mut blob = Vec::new();
    push_u32(&mut blob, 0xd00dfeed);
    push_u32(&mut blob, total as u32);
    push_u32(&mut blob, off_struct as u32);
    push_u32(&mut blob, total as u32);
    push_u32(&mut blob, 40);
    push_u32(&mut blob, 17);
    push_u32(&mut blob, 16);
    push_u32(&mut blob, 0);
    push_u32(&mut blob, 0);
    push_u32(&mut blob, s.len() as u32);
    blob.extend_from_slice(&[0u8; 16]);
    blob.extend_from_slice(&s);
    let mut p = DtbParser::new(blob).unwrap();
    assert!(!p.dump_balanced());
    assert!(p.try_dump_all().is_none());
}

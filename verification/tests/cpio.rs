use arceboot::cpio::{align_up, entries, parse_hex_field, read, read_to_string, CpioError};

fn header(namesize: usize, filesize: usize) -> Vec<u8> {
    let mut h = b"070701".to_vec();
    let fields = [0usize, 0o100644, 0, 0, 1, 0, filesize, 0, 0, 0, 0, namesize, 0];
    for f in fields {
        h.extend_from_slice(format!("{:08X}", f).as_bytes());
    }
    h
}

fn pad(v: &mut Vec<u8>) {
    while v.len() % 4 != 0 {
        v.push(0);
    }
}

fn push_entry(v: &mut Vec<u8>, name: &[u8], data: &[u8]) {
    v.extend_from_slice(&header(name.len() + 1, data.len()));
    v.extend_from_slice(name);
    v.push(0);
    pad(v);
    v.extend_from_slice(data);
    pad(v);
}

fn archive() -> Vec<u8> {
    let mut v = Vec::new();
    push_entry(&mut v, b"test", b"");
    push_entry(&mut v, b"test/arceboot.txt", b"hello from the ramdisk\n");
    push_entry(&mut v, b"bin", &[0xff, 0xfe, 0x00]);
    push_entry(&mut v, b"TRAILER!!!", b"");
    v
}

#[test]
fn cpio_parse_hex_field() {
    assert_eq!(parse_hex_field(b"0000001A"), 26);
    assert_eq!(parse_hex_field(b"0000001a"), 26);
    assert_eq!(parse_hex_field(b"+1f"), 31);
    assert_eq!(parse_hex_field(b"0000zz00"), 0);
    assert_eq!(parse_hex_field(b""), 0);
    assert_eq!(parse_hex_field(b"+"), 0);
    assert_eq!(parse_hex_field(b"-1"), 0);
    assert_eq!(parse_hex_field(b"FFFFFFFFFFFFFFFFFF"), 0);
}

#[test]
fn cpio_align_up() {
    assert_eq!(align_up(0, 4), 0);
    assert_eq!(align_up(5, 4), 8);
    assert_eq!(align_up(8, 4), 8);
}

#[test]
fn cpio_lists_entries() {
    let a = archive();
    let es = entries(&a);
    assert_eq!(es.len(), 3);
    assert_eq!(es[1].name, b"test/arceboot.txt".to_vec());
    assert_eq!(es[1].size, 23);
}

#[test]
fn cpio_read_files() {
    let a = archive();
    assert_eq!(read(Some(&a), "/test/arceboot.txt"), Ok(b"hello from the ramdisk\n".to_vec()));
    assert_eq!(read(Some(&a), "test/arceboot.txt"), Ok(b"hello from the ramdisk\n".to_vec()));
    assert_eq!(read(Some(&a), "/missing"), Err(CpioError::NotFound));
    assert_eq!(read(None, "/test/arceboot.txt"), Err(CpioError::Unsupported));
    assert_eq!(read(Some(&a), "/TRAILER!!!"), Err(CpioError::NotFound));
}

#[test]
fn cpio_read_to_string() {
    let a = archive();
    assert_eq!(read_to_string(Some(&a), "/test/arceboot.txt"), Ok("hello from the ramdisk\n".to_string()));
    assert_eq!(read_to_string(Some(&a), "/bin"), Ok("<invalid utf8>".to_string()));
    assert_eq!(read_to_string(None, "/bin"), Err(CpioError::Unsupported));
}

#[test]
fn cpio_truncated_entry() {
    let mut v = Vec::new();
    push_entry(&mut v, b"big", &[1, 2, 3, 4, 5, 6, 7, 8]);
    v.truncate(v.len() - 4);
    assert_eq!(read(Some(&v), "big"), Err(CpioError::Truncated));
}

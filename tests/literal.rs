use openpgp::literal::{read_literal, write_literal, LiteralFormat};
use openpgp::Error;

#[test]
fn literal_packet_of_short_message() {
    let p = write_literal(LiteralFormat::Binary, b"", 0, b"Hello world.").unwrap();
    let mut want = vec![0xcb, 18, b'b', 0, 0, 0, 0, 0];
    want.extend_from_slice(b"Hello world.");
    assert_eq!(p, want);
}

#[test]
fn literal_packet_with_name_and_date() {
    let p = write_literal(LiteralFormat::Text, b"a.txt", 0x5f5e1000, b"hi").unwrap();
    assert_eq!(
        p,
        vec![0xcb, 13, b't', 5, b'a', b'.', b't', b'x', b't', 0x5f, 0x5e, 0x10, 0x00, b'h', b'i']
    );
}

#[test]
fn literal_packet_two_octet_length() {
    let data = vec![7u8; 200];
    let p = write_literal(LiteralFormat::Binary, b"", 0, &data).unwrap();
    // A body of 206 octets: 192 + 14.
    assert_eq!(p[..3].to_vec(), vec![0xcb, 0xc0, 14]);
    assert_eq!(p.len(), 3 + 206);
}

#[test]
fn literal_packet_five_octet_length() {
    let data = vec![0u8; 9000];
    let p = write_literal(LiteralFormat::Binary, b"", 0, &data).unwrap();
    assert_eq!(p[..6].to_vec(), vec![0xcb, 0xff, 0x00, 0x00, 0x23, 0x2e]);
    assert_eq!(p.len(), 6 + 9006);
}

#[test]
fn literal_round_trip() {
    for n in [0usize, 1, 185, 186, 187, 8377, 8378, 8379, 70000] {
        let data: Vec<u8> = (0..n).map(|i| (i % 251) as u8).collect();
        let p = write_literal(LiteralFormat::Unicode, b"name", 1234567, &data).unwrap();
        let l = read_literal(&p).unwrap();
        assert_eq!(l.format, LiteralFormat::Unicode);
        assert_eq!(l.filename, b"name".to_vec());
        assert_eq!(l.date, 1234567);
        assert_eq!(l.body, data);
    }
}

#[test]
fn literal_reader_accepts_long_form_of_short_length() {
    let p = vec![0xcb, 0xff, 0, 0, 0, 7, b'b', 0, 0, 0, 0, 1, b'x'];
    let l = read_literal(&p).unwrap();
    assert_eq!(l.date, 1);
    assert_eq!(l.body, b"x".to_vec());
}

#[test]
fn literal_name_too_long_is_refused() {
    let name = vec![b'n'; 256];
    assert!(matches!(
        write_literal(LiteralFormat::Binary, &name, 0, b""),
        Err(Error::InvalidArgument(_))
    ));
    assert!(write_literal(LiteralFormat::Binary, &name[..255], 0, b"").is_ok());
}

#[test]
fn literal_reader_refuses_malformed_packets() {
    let good = write_literal(LiteralFormat::Binary, b"f", 0, b"abc").unwrap();
    // Truncated.
    assert!(matches!(read_literal(&good[..good.len() - 1]), Err(Error::InvalidArgument(_))));
    // Trailing octet.
    let mut long = good.clone();
    long.push(0);
    assert!(matches!(read_literal(&long), Err(Error::InvalidArgument(_))));
    // Another tag.
    let mut other = good.clone();
    other[0] = 0xc8;
    assert!(matches!(read_literal(&other), Err(Error::InvalidArgument(_))));
    // Unknown format.
    let mut fmt = good.clone();
    fmt[2] = b'x';
    assert!(matches!(read_literal(&fmt), Err(Error::InvalidArgument(_))));
    // File name longer than the body.
    let mut name = good.clone();
    name[3] = 200;
    assert!(matches!(read_literal(&name), Err(Error::InvalidArgument(_))));
    // Partial body length.
    assert!(matches!(read_literal(&[0xcb, 0xe0, 0]), Err(Error::InvalidArgument(_))));
    assert!(matches!(read_literal(&[]), Err(Error::InvalidArgument(_))));
}

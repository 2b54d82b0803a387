use openpgp::armor::{armor, crc24_of, unarmor, ArmorWriter, Kind};
use openpgp::base64::{decode_text, encode_into};
use openpgp::Error;

fn encoded(data: &[u8]) -> String {
    let mut out = Vec::new();
    encode_into(data, &mut out);
    String::from_utf8(out).unwrap()
}

#[test]
fn base64_known_values() {
    assert_eq!(encoded(b""), "");
    assert_eq!(encoded(b"f"), "Zg==");
    assert_eq!(encoded(b"fo"), "Zm8=");
    assert_eq!(encoded(b"foo"), "Zm9v");
    assert_eq!(encoded(b"foobar"), "Zm9vYmFy");
    assert_eq!(encoded(&[0xfb, 0xff, 0xbf]), "+/+/");
}

#[test]
fn base64_decodes_and_refuses_malformed_text() {
    assert_eq!(decode_text(b"Zm9vYmE=").unwrap(), b"fooba".to_vec());
    assert_eq!(decode_text(b"Zg==").unwrap(), b"f".to_vec());
    assert_eq!(decode_text(b"").unwrap(), Vec::<u8>::new());
    assert!(decode_text(b"Zm9").is_none());
    assert!(decode_text(b"Zg==Zm9v").is_none());
    assert!(decode_text(b"Zm9*").is_none());
}

#[test]
fn base64_round_trip_all_byte_values() {
    let data: Vec<u8> = (0..=255u8).collect();
    for n in 0..data.len() {
        let mut text = Vec::new();
        encode_into(&data[..n], &mut text);
        assert_eq!(decode_text(&text).unwrap(), data[..n].to_vec());
    }
}

#[test]
fn crc24_known_values() {
    assert_eq!(crc24_of(b""), 0xb704ce);
    assert_eq!(crc24_of(b"Hello world."), 0x8d7f80);
}

#[test]
fn armor_of_short_message() {
    let a = armor(Kind::Message, b"Hello world.");
    assert_eq!(
        String::from_utf8(a).unwrap(),
        "-----BEGIN PGP MESSAGE-----\n\nSGVsbG8gd29ybGQu\n=jX+A\n-----END PGP MESSAGE-----\n"
    );
}

#[test]
fn armor_of_empty_signature() {
    let a = armor(Kind::Signature, b"");
    assert_eq!(
        String::from_utf8(a.clone()).unwrap(),
        "-----BEGIN PGP SIGNATURE-----\n\n=twTO\n-----END PGP SIGNATURE-----\n"
    );
    assert_eq!(unarmor(Kind::Signature, &a).unwrap(), Vec::<u8>::new());
}

#[test]
fn armor_wraps_lines_at_64_characters() {
    let data: Vec<u8> = (0..100u8).collect();
    let a = armor(Kind::PublicKey, &data);
    assert_eq!(
        String::from_utf8(a).unwrap(),
        "-----BEGIN PGP PUBLIC KEY BLOCK-----\n\n\
         AAECAwQFBgcICQoLDA0ODxAREhMUFRYXGBkaGxwdHh8gISIjJCUmJygpKissLS4v\n\
         MDEyMzQ1Njc4OTo7PD0+P0BBQkNERUZHSElKS0xNTk9QUVJTVFVWV1hZWltcXV5f\n\
         YGFiYw==\n\
         =ojIo\n\
         -----END PGP PUBLIC KEY BLOCK-----\n"
    );
}

#[test]
fn unarmor_of_armor_round_trips() {
    for n in [0usize, 1, 2, 3, 47, 48, 49, 95, 96, 97, 1000] {
        let data: Vec<u8> = (0..n).map(|i| (i * 7 + 3) as u8).collect();
        for kind in [Kind::Message, Kind::Signature, Kind::PublicKey, Kind::SecretKey] {
            let a = armor(kind, &data);
            assert_eq!(unarmor(kind, &a).unwrap(), data);
        }
    }
}

#[test]
fn unarmor_of_large_zero_payload() {
    let data = vec![0u8; 10 * 1024 * 1024];
    let a = armor(Kind::Message, &data);
    let back = unarmor(Kind::Message, &a).unwrap();
    assert_eq!(back.len(), data.len());
    assert!(back == data);
}

#[test]
fn unarmor_refuses_damaged_checksum() {
    let mut a = armor(Kind::Message, b"Hello world.");
    let at = a.iter().position(|&c| c == b'=').unwrap();
    a[at + 1] = b'k';
    assert!(matches!(unarmor(Kind::Message, &a), Err(Error::InvalidArgument(_))));
}

#[test]
fn unarmor_refuses_damaged_body() {
    let mut a = armor(Kind::Message, b"Hello world.");
    a[30] = b'T';
    assert!(matches!(unarmor(Kind::Message, &a), Err(Error::InvalidArgument(_))));
}

#[test]
fn unarmor_refuses_other_kind_and_short_text() {
    let a = armor(Kind::Message, b"Hello world.");
    assert!(matches!(unarmor(Kind::Signature, &a), Err(Error::InvalidArgument(_))));
    assert!(matches!(unarmor(Kind::Message, b"-----"), Err(Error::InvalidArgument(_))));
}

#[test]
fn streaming_armor_matches_whole_armor() {
    let data: Vec<u8> = (0..500u32).map(|i| (i * 31 % 256) as u8).collect();
    for chunk in [1usize, 2, 3, 4, 5, 7, 48, 64, 100, 500] {
        let mut sink = Vec::new();
        let mut w = ArmorWriter::new(Kind::Message, &mut sink);
        for piece in data.chunks(chunk) {
            w.write(piece, &mut sink);
        }
        w.finalize(&mut sink);
        assert_eq!(sink, armor(Kind::Message, &data));
    }
}

#[test]
fn streaming_armor_puts_output_out_as_it_goes() {
    let mut sink = Vec::new();
    let mut w = ArmorWriter::new(Kind::Message, &mut sink);
    assert_eq!(sink, b"-----BEGIN PGP MESSAGE-----\n\n".to_vec());
    // Two bytes wait for a third.
    w.write(b"He", &mut sink);
    assert_eq!(sink.len(), 29);
    w.write(b"l", &mut sink);
    assert_eq!(sink, b"-----BEGIN PGP MESSAGE-----\n\nSGVs".to_vec());
    // 48 more bytes complete the first line and its line feed goes out.
    w.write(&[0u8; 45], &mut sink);
    assert_eq!(sink.len(), 29 + 64 + 1);
    assert_eq!(sink[sink.len() - 1], b'\n');
    w.finalize(&mut sink);
    let mut data = b"Hel".to_vec();
    data.extend_from_slice(&[0u8; 45]);
    assert_eq!(sink, armor(Kind::Message, &data));
}

#[test]
fn streaming_armor_of_nothing() {
    let mut sink = Vec::new();
    let w = ArmorWriter::new(Kind::Signature, &mut sink);
    w.finalize(&mut sink);
    assert_eq!(
        String::from_utf8(sink).unwrap(),
        "-----BEGIN PGP SIGNATURE-----\n\n=twTO\n-----END PGP SIGNATURE-----\n"
    );
}

#[test]
fn streaming_armor_appends_to_sink() {
    let mut sink = b"prefix".to_vec();
    let mut w = ArmorWriter::new(Kind::Message, &mut sink);
    w.write(b"Hello world.", &mut sink);
    w.finalize(&mut sink);
    let mut want = b"prefix".to_vec();
    want.extend_from_slice(&armor(Kind::Message, b"Hello world."));
    assert_eq!(sink, want);
}

#[test]
fn streaming_armor_of_exact_line() {
    // 48 bytes encode to exactly one full line of 64 characters.
    let data = vec![0xabu8; 48];
    let mut sink = Vec::new();
    let mut w = ArmorWriter::new(Kind::Message, &mut sink);
    w.write(&data[..10], &mut sink);
    w.write(&data[10..], &mut sink);
    w.finalize(&mut sink);
    assert_eq!(sink, armor(Kind::Message, &data));
    assert_eq!(unarmor(Kind::Message, &sink).unwrap(), data);
}

#[test]
fn streaming_armor_of_large_zero_payload() {
    let block = vec![0u8; 64 * 1024];
    let mut sink = Vec::new();
    let mut w = ArmorWriter::new(Kind::Message, &mut sink);
    for _ in 0..160 {
        w.write(&block, &mut sink);
    }
    w.finalize(&mut sink);
    let back = unarmor(Kind::Message, &sink).unwrap();
    assert_eq!(back.len(), 10 * 1024 * 1024);
    assert!(back.iter().all(|&b| b == 0));
}

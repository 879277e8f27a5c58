use hound::ByteCursor;
use hound::Error;
use hound::Sample;
use hound::signed_from_u8;
use hound::u8_from_signed;

#[test]
fn u8_sign_conversion_is_bijective() {
    for x in 0..255 {
        let x = x as u8;
        assert_eq!(x, u8_from_signed(signed_from_u8(x)));
    }
    for x in -128..127 {
        let x = x as i8;
        assert_eq!(x, signed_from_u8(u8_from_signed(x)));
    }
}

#[test]
fn sign_conversion_edges() {
    assert_eq!(-128, signed_from_u8(0));
    assert_eq!(127, signed_from_u8(255));
    assert_eq!(0, u8_from_signed(-128));
    assert_eq!(255, u8_from_signed(127));
}

#[test]
fn encode_writes_exact_bytes_at_each_depth() {
    let mut buf: Vec<u8> = Vec::new();
    (-1i8).write(&mut buf, 8).unwrap();
    assert_eq!(&buf[..], &[127]);

    let mut buf: Vec<u8> = Vec::new();
    (-2i16).write(&mut buf, 16).unwrap();
    assert_eq!(&buf[..], &[0xFE, 0xFF]);

    let mut buf: Vec<u8> = Vec::new();
    (-1i16).write(&mut buf, 24).unwrap();
    assert_eq!(&buf[..], &[0xFF, 0xFF, 0xFF]);

    let mut buf: Vec<u8> = Vec::new();
    (0x12345678i32).write(&mut buf, 32).unwrap();
    assert_eq!(&buf[..], &[0x78, 0x56, 0x34, 0x12]);

    let mut buf: Vec<u8> = Vec::new();
    (-1i32).write(&mut buf, 32).unwrap();
    assert_eq!(&buf[..], &[0xFF, 0xFF, 0xFF, 0xFF]);
}

#[test]
fn encode_rejects_unsupported_depth() {
    let mut buf: Vec<u8> = Vec::new();
    assert_eq!(Err(Error::Unsupported), (5i16).write(&mut buf, 12));
    assert!(buf.is_empty());
}

#[test]
fn decode_reads_exact_values() {
    let mut cur = ByteCursor { data: vec![0x00, 0x80], pos: 0 };
    let v: i16 = Sample::read(&mut cur, 2, 16).unwrap();
    assert_eq!(-32768, v);
    assert_eq!(2, cur.pos);

    let mut cur = ByteCursor { data: vec![0xFF, 0xFF, 0xFF], pos: 0 };
    let v: i32 = Sample::read(&mut cur, 3, 24).unwrap();
    assert_eq!(-1, v);

    let mut cur = ByteCursor { data: vec![0x00], pos: 0 };
    let v: i8 = Sample::read(&mut cur, 1, 8).unwrap();
    assert_eq!(-128, v);
}

#[test]
fn decode_rejects_wider_storage_than_the_logical_width() {
    let mut cur = ByteCursor { data: vec![0x01, 0x02], pos: 0 };
    let r: Result<i8, Error> = Sample::read(&mut cur, 2, 16);
    assert_eq!(Err(Error::TooWide), r);
    assert_eq!(0, cur.pos);
}

#[test]
fn decode_fails_on_short_source() {
    let mut cur = ByteCursor { data: vec![0x01], pos: 0 };
    let r: Result<i16, Error> = Sample::read(&mut cur, 2, 16);
    assert_eq!(Err(Error::IoError), r);
    assert_eq!(0, cur.pos);
}

#[test]
fn error_descriptions() {
    assert_eq!(
        "the sample has more bits than the data type of the sample iterator",
        Error::TooWide.description()
    );
    assert_eq!(
        "the number of samples written is not a multiple of the number of channels",
        Error::UnfinishedSample.description()
    );
    assert_eq!(
        "the wave format of the file is not supported",
        Error::Unsupported.description()
    );
    assert_eq!("bad", Error::FormatError("bad").description());
}

use bootsim::cbor::{decimal, Context, ContextItem, Encoder};

#[test]
fn heads_take_the_least_bytes() {
    let encode = |value: usize| {
        let mut enc = Encoder::new();
        enc.add_unsigned(value);
        assert!(enc.is_complete());
        enc.assert_complete();
        enc.into_inner()
    };
    assert_eq!(encode(0), [0x00]);
    assert_eq!(encode(23), [0x17]);
    assert_eq!(encode(24), [0x18, 24]);
    assert_eq!(encode(255), [0x18, 0xff]);
    assert_eq!(encode(256), [0x19, 0x01, 0x00]);
    assert_eq!(encode(0xffff), [0x19, 0xff, 0xff]);
    assert_eq!(encode(0x10000), [0x1a, 0x00, 0x01, 0x00, 0x00]);
    assert_eq!(encode(0xffff_ffff), [0x1a, 0xff, 0xff, 0xff, 0xff]);
    assert_eq!(encode(0x1_0000_0000), [0x1b, 0, 0, 0, 1, 0, 0, 0, 0]);
    assert_eq!(encode(0x0102_0304_0506_0708), [0x1b, 1, 2, 3, 4, 5, 6, 7, 8]);
}

#[test]
fn signed_integers() {
    let encode = |value: isize| {
        let mut enc = Encoder::new();
        enc.add_signed(value);
        enc.into_inner()
    };
    assert_eq!(encode(5), [0x05]);
    assert_eq!(encode(-1), [0x20]);
    assert_eq!(encode(-37), [0x38, 36]);
    assert_eq!(encode(-500), [0x39, 0x01, 0xf3]);
    assert_eq!(encode(isize::MIN), [0x3b, 0x7f, 0xff, 0xff, 0xff, 0xff, 0xff, 0xff, 0xff]);
}

#[test]
fn strings_and_null() {
    let mut enc = Encoder::new();
    enc.add_array(3);
    enc.add_bytestring(&[1, 2, 3]);
    enc.add_utf8("Digest");
    enc.add_null();
    assert!(enc.is_complete());
    enc.assert_complete();
    assert_eq!(
        enc.bytes(),
        &[0x83, 0x43, 1, 2, 3, 0x66, b'D', b'i', b'g', b'e', b's', b't', 0xf6]
    );
}

#[test]
fn items_are_counted() {
    let mut enc = Encoder::new();
    enc.add_map(2);
    assert!(!enc.is_complete());
    enc.add_unsigned(1);
    enc.add_array(0);
    enc.add_unsigned(2);
    assert!(!enc.is_complete());
    enc.add_tag(98);
    // The tag waits for its item.
    assert!(!enc.is_complete());
    enc.add_map(0);
    assert!(enc.is_complete());
    enc.assert_complete();
    assert_eq!(enc.bytes(), &[0xa2, 0x01, 0x80, 0x02, 0xd8, 98, 0xa0]);
    // Nothing more is expected.
    assert!(!enc.expects_item());
    assert_eq!(enc.bytes().len(), 7);
}

#[test]
fn nested_arrays_close_together() {
    let mut enc = Encoder::new();
    enc.add_array(1);
    enc.add_array(1);
    enc.add_array(2);
    enc.add_signed(-1);
    assert!(!enc.is_complete());
    enc.add_signed(1);
    assert!(enc.is_complete());
    enc.assert_complete();
    assert_eq!(enc.into_inner(), [0x81, 0x81, 0x82, 0x20, 0x01]);
}

#[test]
fn the_largest_map_is_taken() {
    let mut enc = Encoder::new();
    enc.add_map(usize::MAX / 2);
}

#[test]
fn context_as_text() {
    let mut ctx = Context::new();
    assert_eq!(ctx.to_text(), b"");
    assert_eq!(ctx.left(), b" ");
    ctx.push(ContextItem::MapEntry(0));
    ctx.succ();
    ctx.push(ContextItem::Array(0));
    assert_eq!(ctx.to_text(), b"m1a0");
    for _ in 0..123 {
        ctx.succ();
    }
    ctx.push(ContextItem::Tag);
    ctx.succ();
    ctx.push(ContextItem::Nested);
    assert_eq!(ctx.to_text(), b"m1a123tn");
    assert_eq!(ctx.left(), vec![b' '; 13]);
    assert_eq!(ctx.pad(13), vec![b' '; 55 - 17]);
    assert_eq!(ctx.pad(51), vec![b' '; 1]);
    assert_eq!(ctx.pad(usize::MAX), vec![b' '; 1]);
    ctx.pop();
    assert_eq!(ctx.0.len(), 3);
    ctx.pop();
    ctx.pop();
    ctx.pop();
    assert!(ctx.0.is_empty());
    assert_eq!(ctx.0, []);
    assert_eq!(decimal(0), b"0");
    assert_eq!(decimal(9), b"9");
    assert_eq!(decimal(10), b"10");
    assert_eq!(decimal(4096), b"4096");
}

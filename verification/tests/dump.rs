use bootsim::cbor::{Context, ContextItem, Encoder};
use bootsim::dump::{read_head, CborDump, Deep, DumpError, Keys, Kind, Line, SubDecode};
use bootsim::suit::{RSA2048Signer, SuitGenerator};

fn line(depth: usize, code: u8, count: u64, kind: Kind, at: usize) -> Line {
    Line { depth, code, count, kind, at }
}

fn no_keys() -> Keys {
    Keys(vec![])
}

#[test]
fn heads_are_read_back() {
    for value in [0usize, 1, 23, 24, 255, 256, 0xffff, 0x10000, 0xffff_ffff, 0x1_0000_0000, usize::MAX] {
        let mut enc = Encoder::new();
        enc.add_unsigned(value);
        let bytes = enc.into_inner();
        assert_eq!(read_head(&bytes, 0, bytes.len()), Ok((0, value as u64, bytes.len())));
    }
    assert_eq!(read_head(&vec![0x38, 36], 0, 2), Ok((1, 36, 2)));
    assert_eq!(read_head(&vec![0x00, 0xd8, 0x62, 0x00], 1, 4), Ok((6, 98, 2)));
    assert_eq!(read_head(&vec![0x1b, 1, 2, 3, 4, 5, 6, 7, 8], 0, 9), Ok((0, 0x0102_0304_0506_0708, 9)));
}

#[test]
fn broken_heads_are_refused() {
    assert_eq!(read_head(&vec![], 0, 0), Err(DumpError::Truncated));
    assert_eq!(read_head(&vec![0x00], 1, 1), Err(DumpError::Truncated));
    assert_eq!(read_head(&vec![0x18], 0, 1), Err(DumpError::Truncated));
    assert_eq!(read_head(&vec![0x19, 1], 0, 2), Err(DumpError::Truncated));
    assert_eq!(read_head(&vec![0x1a, 1, 2, 3], 0, 4), Err(DumpError::Truncated));
    assert_eq!(read_head(&vec![0x1b, 1, 2, 3, 4, 5, 6, 7, 8], 0, 8), Err(DumpError::Truncated));
    assert_eq!(read_head(&vec![0x9f], 0, 1), Err(DumpError::Indefinite));
    assert_eq!(read_head(&vec![0x1c, 0, 0], 0, 3), Err(DumpError::BadLength));
    assert_eq!(read_head(&vec![0x1d, 0, 0], 0, 3), Err(DumpError::BadLength));
    assert_eq!(read_head(&vec![0x1e, 0, 0], 0, 3), Err(DumpError::BadLength));
}

#[test]
fn walk_lists_the_items_of_an_array() {
    let mut enc = Encoder::new();
    enc.add_array(5);
    enc.add_unsigned(500);
    enc.add_signed(-37);
    enc.add_bytestring(&[1, 2, 3]);
    enc.add_utf8("Digest");
    enc.add_null();
    let mut dump = CborDump::new(enc.into_inner(), no_keys());
    assert_eq!(dump.walk(), Ok(()));
    assert_eq!(
        dump.lines(),
        &vec![
            line(0, 4, 5, Kind::ArrayHead, 1),
            line(1, 0, 500, Kind::Integer, 4),
            line(1, 1, 36, Kind::NegInteger, 6),
            line(1, 2, 3, Kind::ByteString, 7),
            line(1, 3, 6, Kind::Utf8, 11),
            line(1, 7, 22, Kind::Null, 18),
        ]
    );
    assert_eq!(dump.position(), 18);
    assert_eq!(dump.position(), dump.data().len());
    assert!(dump.context().0.is_empty());
}

#[test]
fn walk_takes_one_item() {
    let mut dump = CborDump::new(vec![0x01, 0x02], no_keys());
    assert_eq!(dump.dump(), Ok(()));
    assert_eq!(dump.lines(), &vec![line(0, 0, 1, Kind::Integer, 1)]);
    assert_eq!(dump.position(), 1);
    assert_eq!(dump.walk(), Ok(()));
    assert_eq!(dump.lines().len(), 2);
    assert_eq!(dump.walk(), Err(DumpError::Truncated));
    assert_eq!(dump.lines().len(), 2);
}

#[test]
fn a_map_holds_twice_its_count() {
    // {1: [], 2: true}, and a number behind it.
    let mut dump = CborDump::new(vec![0xa2, 0x01, 0x80, 0x02, 0xf5, 0x07], no_keys());
    assert_eq!(dump.walk(), Ok(()));
    assert_eq!(
        dump.lines(),
        &vec![
            line(0, 5, 2, Kind::MapHead, 1),
            line(1, 0, 1, Kind::Integer, 2),
            line(1, 4, 0, Kind::ArrayHead, 3),
            line(1, 0, 2, Kind::Integer, 4),
            line(1, 7, 21, Kind::True, 5),
        ]
    );
    assert_eq!(dump.position(), 5);
}

#[test]
fn simple_values() {
    let mut dump = CborDump::new(vec![0x84, 0xf4, 0xf5, 0xf6, 0xf7], no_keys());
    assert_eq!(dump.walk(), Ok(()));
    let kinds: Vec<Kind> = dump.lines().iter().map(|l| l.kind).collect();
    assert_eq!(kinds, [Kind::ArrayHead, Kind::False, Kind::True, Kind::Null, Kind::Undefined]);
    let mut dump = CborDump::new(vec![0x81, 0xe0], no_keys());
    assert_eq!(dump.walk(), Err(DumpError::BadSpecial));
    assert_eq!(dump.lines(), &vec![line(0, 4, 1, Kind::ArrayHead, 1)]);
}

#[test]
fn a_walk_that_stops_keeps_its_lines() {
    // An array of three with two items.
    let mut dump = CborDump::new(vec![0x83, 0x01, 0x02], no_keys());
    assert_eq!(dump.walk(), Err(DumpError::Truncated));
    assert_eq!(dump.lines().len(), 3);
    // A byte string that is longer than what is there.
    let mut dump = CborDump::new(vec![0x44, 1, 2, 3], no_keys());
    assert_eq!(dump.walk(), Err(DumpError::Truncated));
    assert_eq!(dump.lines(), &vec![line(0, 2, 4, Kind::ByteString, 1)]);
    // Text that is no text.
    let mut dump = CborDump::new(vec![0x62, 0xc3, 0x28], no_keys());
    assert_eq!(dump.walk(), Err(DumpError::BadText));
    let mut dump = CborDump::new(vec![0x62, 0xc3, 0xa9], no_keys());
    assert_eq!(dump.walk(), Ok(()));
    assert_eq!(dump.lines(), &vec![line(0, 3, 2, Kind::Utf8, 1)]);
    let mut dump = CborDump::new(vec![0x5f, 0x41, 0x00, 0xff], no_keys());
    assert_eq!(dump.walk(), Err(DumpError::Indefinite));
    assert!(dump.lines().is_empty());
}

#[test]
fn a_tag_counts_twice() {
    // {1: 98(2), 3: h'01'}: the context stands at 4 where the string is.
    let data = vec![0xa2, 0x01, 0xd8, 0x62, 0x02, 0x03, 0x41, 0x01];
    let mut dump = CborDump::new(data, Deep());
    assert_eq!(dump.walk(), Ok(()));
    assert_eq!(
        dump.lines(),
        &vec![
            line(0, 5, 2, Kind::MapHead, 1),
            line(1, 0, 1, Kind::Integer, 2),
            line(1, 6, 98, Kind::Tag, 4),
            line(1, 0, 2, Kind::Integer, 5),
            line(1, 0, 3, Kind::Integer, 6),
            line(1, 2, 1, Kind::Embedded, 7),
            line(2, 0, 1, Kind::Integer, 8),
        ]
    );
    let mut context = Context::new();
    context.push(ContextItem::Array(0));
    context.succ();
    context.succ();
    assert_eq!(context.to_text(), b"a2");
}

fn key_of(data: &[u8]) -> Vec<u8> {
    let hash = ring::digest::digest(&ring::digest::SHA256, data);
    hex::encode(hash.as_ref())[..8].as_bytes().to_vec()
}

#[test]
fn byte_strings_are_decoded_by_their_key() {
    // [h'8101', h'8102']: both hold an array of one number.
    let data = vec![0x82, 0x42, 0x81, 0x01, 0x42, 0x81, 0x02];
    assert_eq!(key_of(b"abc"), b"ba7816bf");
    let keys = Keys(vec![b"00000000".to_vec(), key_of(&[0x81, 0x02])]);
    assert!(keys.should_decode(&vec![0x81, 0x02], &Context::new()));
    assert!(!keys.should_decode(&vec![0x81, 0x01], &Context::new()));
    let mut dump = CborDump::new(data, keys);
    assert_eq!(dump.walk(), Ok(()));
    assert_eq!(
        dump.lines(),
        &vec![
            line(0, 4, 2, Kind::ArrayHead, 1),
            line(1, 2, 2, Kind::ByteString, 2),
            line(1, 2, 2, Kind::Embedded, 5),
            line(2, 4, 1, Kind::ArrayHead, 6),
            line(3, 0, 2, Kind::Integer, 7),
        ]
    );
    assert_eq!(dump.position(), 7);
    assert!(dump.context().0.is_empty());
}

#[test]
fn an_embedded_item_ends_with_its_string() {
    // h'0102' decoded: one item is walked, the second byte is passed over;
    // h'19' decoded: the head wants bytes that the string does not have.
    let first = vec![0x42, 0x01, 0x02, 0x05];
    let mut dump = CborDump::new(first, Keys(vec![key_of(&[0x01, 0x02])]));
    assert_eq!(dump.walk(), Ok(()));
    assert_eq!(dump.position(), 3);
    assert_eq!(
        dump.lines(),
        &vec![line(0, 2, 2, Kind::Embedded, 1), line(1, 0, 1, Kind::Integer, 2)]
    );
    let second = vec![0x41, 0x19, 0x01, 0x02];
    let mut dump = CborDump::new(second, Keys(vec![key_of(&[0x19])]));
    assert_eq!(dump.walk(), Err(DumpError::Truncated));
    assert_eq!(dump.lines(), &vec![line(0, 2, 1, Kind::Embedded, 1)]);
}

#[test]
fn deep_decodes_where_a_manifest_holds_cbor() {
    let mut context = Context::new();
    assert!(!Deep().should_decode(&vec![], &context));
    context.push(ContextItem::MapEntry(4));
    assert!(Deep().should_decode(&vec![], &context));
    context.push(ContextItem::Nested);
    assert!(!Deep().should_decode(&vec![], &context));
    let mut context = Context::new();
    context.push(ContextItem::MapEntry(1));
    context.push(ContextItem::Array(0));
    assert!(Deep().should_decode(&vec![], &context));
    context.pop();
    context.push(ContextItem::Array(3));
    context.push(ContextItem::Array(0));
    assert!(!Deep().should_decode(&vec![], &context));
    context.push(ContextItem::Array(0));
    assert!(Deep().should_decode(&vec![], &context));
}

#[test]
fn a_manifest_is_walked_to_its_end() {
    let mut gen: SuitGenerator<RSA2048Signer> = SuitGenerator::new();
    gen.add_payload(&b"hello".to_vec()).unwrap();
    gen.set_key_id(b"key".to_vec()).unwrap();
    let envelope = gen.generate().unwrap();
    let mut dump = CborDump::new(envelope, Deep());
    assert_eq!(dump.walk(), Ok(()));
    assert_eq!(dump.position(), dump.data().len());
    let embedded: Vec<&Line> =
        dump.lines().iter().filter(|l| l.kind == Kind::Embedded).collect();
    // The two protected headers, the manifest, and the name of the digest.
    assert_eq!(embedded.len(), 4);
    assert_eq!(embedded[0].depth, 2);
    assert_eq!(embedded[0].count, 3);
    assert_eq!(embedded[1].depth, 4);
    assert_eq!(embedded[2].depth, 1);
    assert_eq!(embedded[3].depth, 6);
    let text: Vec<&Line> = dump.lines().iter().filter(|l| l.kind == Kind::Utf8).collect();
    assert!(text.is_empty());
    assert_eq!(dump.lines()[0], line(0, 5, 2, Kind::MapHead, 1));
    assert_eq!(dump.lines()[2], line(1, 6, 98, Kind::Tag, 4));
}

#[test]
fn bytes_are_written_as_two_digits_each() {
    assert_eq!(bootsim::dump::hex_encode(&vec![]), b"");
    assert_eq!(bootsim::dump::hex_encode(&vec![0x00, 0x09, 0x0a, 0xf9, 0xb4, 0xca, 0xff]), b"00090af9b4caff");
    let all: Vec<u8> = (0..=255).collect();
    assert_eq!(bootsim::dump::hex_encode(&all), hex::encode(&all).into_bytes());
    assert_eq!(bootsim::dump::hex_digit_of(10), b'a');
}

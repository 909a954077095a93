//! A simplistic CBOR dump utility.
//!
//! The decoder walks one item of definite CBOR and describes it line by
//! line: each line names the head of an item, how deep it is nested, and
//! where its bytes are.  How the lines are shown is left to the caller.

use crate::bytes::{copy_range, same_bytes};
use crate::cbor::{advanced, be16, be32, be64, context_text, head, Context, ContextItem};
use crate::crypto::{sha256, sha256_digest};
use vstd::prelude::*;
use vstd::utf8::valid_utf8;

verus! {

/// Why a piece of CBOR was not walked to its end.
#[derive(Copy, Clone, Debug, PartialEq, Eq, Structural)]
pub enum DumpError {
    /// The bytes end within an item.
    Truncated,
    /// The item has no definite length.
    Indefinite,
    /// The head of the item holds a length that CBOR does not define.
    BadLength,
    /// The item is a simple value other than false, true, null and
    /// undefined.
    BadSpecial,
    /// The text is not valid UTF-8.
    BadText,
}

/// What an item is.
#[derive(Copy, Clone, Debug, PartialEq, Eq, Structural)]
pub enum Kind {
    Integer,
    NegInteger,
    /// A byte string that is shown as it is.
    ByteString,
    /// A byte string that is decoded as CBOR: the lines of what it holds
    /// follow.
    Embedded,
    Utf8,
    ArrayHead,
    MapHead,
    Tag,
    False,
    True,
    Null,
    Undefined,
}

/// One line of a dump: the head of one item.
#[derive(Copy, Clone, Debug, PartialEq, Eq, Structural)]
pub struct Line {
    /// How many levels the item is nested.
    pub depth: usize,
    /// The major type of the item.
    pub code: u8,
    /// The value in the head of the item: the number itself, the length of
    /// a string, the number of items of an array, of pairs of a map.
    pub count: u64,
    /// What the item is.
    pub kind: Kind,
    /// Where the head of the item ends: for a string, where its bytes start.
    pub at: usize,
}

/// The number in the two bytes at `at`, the high one first.
pub open spec fn be2(data: Seq<u8>, at: int) -> int {
    data[at] * 256 + data[at + 1]
}

/// The number in the four bytes at `at`, the highest first.
pub open spec fn be4(data: Seq<u8>, at: int) -> int {
    be2(data, at) * 0x1_0000 + be2(data, at + 2)
}

/// The number in the eight bytes at `at`, the highest first.
pub open spec fn be8(data: Seq<u8>, at: int) -> int {
    be4(data, at) * 0x1_0000_0000 + be4(data, at + 4)
}

/// The head of the item that starts at `pos`, in bytes that end at `end`:
/// its major type, its value, and its length in bytes.
pub open spec fn head_at(data: Seq<u8>, pos: int, end: int) -> Result<(u8, u64, int), DumpError> {
    if pos >= end {
        Err(DumpError::Truncated)
    } else {
        let code = data[pos] / 32;
        let low = data[pos] % 32;
        if low < 24 {
            Ok((code, low as u64, 1))
        } else if low == 31 {
            Err(DumpError::Indefinite)
        } else if low > 27 {
            Err(DumpError::BadLength)
        } else {
            let len: int = if low == 24 {
                2
            } else if low == 25 {
                3
            } else if low == 26 {
                5
            } else {
                9
            };
            if end - pos < len {
                Err(DumpError::Truncated)
            } else if low == 24 {
                Ok((code, data[pos + 1] as u64, len))
            } else if low == 25 {
                Ok((code, be2(data, pos + 1) as u64, len))
            } else if low == 26 {
                Ok((code, be4(data, pos + 1) as u64, len))
            } else {
                Ok((code, be8(data, pos + 1) as u64, len))
            }
        }
    }
}

/// Read a CBOR code value, and the associated integer.
pub fn read_head(data: &Vec<u8>, pos: usize, end: usize) -> (res: Result<
    (u8, u64, usize),
    DumpError,
>)
    requires
        pos <= end <= data@.len(),
    ensures
        match head_at(data@, pos as int, end as int) {
            Ok((code, count, len)) => res == Ok::<(u8, u64, usize), DumpError>(
                (code, count, len as usize),
            ) && 1 <= len <= end - pos && code < 8,
            Err(e) => res == Err::<(u8, u64, usize), DumpError>(e),
        },
{
    if pos >= end {
        return Err(DumpError::Truncated);
    }
    let b: u8 = data[pos];
    let code: u8 = b / 32;
    let low: u8 = b % 32;
    if low < 24 {
        return Ok((code, low as u64, 1));
    }
    if low == 31 {
        return Err(DumpError::Indefinite);
    }
    if low > 27 {
        return Err(DumpError::BadLength);
    }
    let len: usize = if low == 24 {
        2
    } else if low == 25 {
        3
    } else if low == 26 {
        5
    } else {
        9
    };
    if end - pos < len {
        return Err(DumpError::Truncated);
    }
    let mut count: u64 = 0;
    let mut k: usize = 1;
    while k < len
        invariant
            1 <= k <= len <= 9,
            pos + len <= end <= data@.len(),
            len == 2 || len == 3 || len == 5 || len == 9,
            k == 1 ==> count == 0,
            k == 2 ==> count == data@[pos + 1],
            k == 3 ==> count == be2(data@, pos + 1),
            k == 4 ==> count == be2(data@, pos + 1) * 256 + data@[pos + 3],
            k == 5 ==> count == be4(data@, pos + 1),
            k == 6 ==> count == be4(data@, pos + 1) * 256 + data@[pos + 5],
            k == 7 ==> count == be4(data@, pos + 1) * 0x1_0000 + be2(data@, pos + 5),
            k == 8 ==> count == (be4(data@, pos + 1) * 0x1_0000 + be2(data@, pos + 5)) * 256
                + data@[pos + 7],
            k == 9 ==> count == be8(data@, pos + 1),
        decreases len - k,
    {
        count = count * 256 + data[pos + k] as u64;
        k = k + 1;
    }
    Ok((code, count, len))
}

proof fn lemma_be32_value(x: u32)
    ensures
        be4(be32(x), 0) == x,
{
    let b = be32(x);
    let hi = x as int / 0x1_0000;
    let lo = x as int % 0x1_0000;
    assert(b[0] == hi / 256 && b[1] == hi % 256) by {
        assert(x as int / 16777216 == hi / 256);
        assert(x as int / 65536 % 256 == hi % 256);
    }
    assert(b[2] == lo / 256 && b[3] == lo % 256) by {
        assert(x as int / 256 % 256 == lo / 256);
        assert(x as int % 256 == lo % 256);
    }
}

proof fn lemma_be4_shifted(data: Seq<u8>, part: Seq<u8>, at: int)
    requires
        part.len() == 4,
        0 <= at,
        at + 4 <= data.len(),
        data.subrange(at, at + 4) == part,
    ensures
        be4(data, at) == be4(part, 0),
{
    assert(forall|i: int| 0 <= i < 4 ==> part[i] == data.subrange(at, at + 4)[i]);
    assert(part[0] == data[at] && part[1] == data[at + 1] && part[2] == data[at + 2] && part[3]
        == data[at + 3]);
}

proof fn lemma_short_head_round_trip(code: u8, value: u64, rest: Seq<u8>)
    requires
        code < 8,
        value <= 0xffff,
    ensures
        head_at(head(code, value) + rest, 0, (head(code, value) + rest).len() as int) == Ok::<
            (u8, u64, int),
            DumpError,
        >((code, value, head(code, value).len() as int)),
{
    let data = head(code, value) + rest;
    if value < 24 {
        assert(data[0] == (code * 32 + value) as u8);
    } else if value <= 0xff {
        assert(data[0] == (code * 32 + 24) as u8);
        assert(data[1] == value as u8);
    } else {
        assert(data[0] == (code * 32 + 25) as u8);
        assert(data[1] == be16(value as u16)[0]);
        assert(data[2] == be16(value as u16)[1]);
    }
}

proof fn lemma_word_head_round_trip(code: u8, value: u64, rest: Seq<u8>)
    requires
        code < 8,
        0xffff < value <= 0xffff_ffff,
    ensures
        head_at(head(code, value) + rest, 0, (head(code, value) + rest).len() as int) == Ok::<
            (u8, u64, int),
            DumpError,
        >((code, value, head(code, value).len() as int)),
{
    let data = head(code, value) + rest;
    let b = be32(value as u32);
    assert(data[0] == (code * 32 + 26) as u8);
    assert(data.subrange(1, 5) =~= b);
    lemma_be4_shifted(data, b, 1);
    lemma_be32_value(value as u32);
}

proof fn lemma_long_head_round_trip(code: u8, value: u64, rest: Seq<u8>)
    requires
        code < 8,
        0xffff_ffff < value,
    ensures
        head_at(head(code, value) + rest, 0, (head(code, value) + rest).len() as int) == Ok::<
            (u8, u64, int),
            DumpError,
        >((code, value, head(code, value).len() as int)),
{
    let data = head(code, value) + rest;
    let hi = be32((value / 0x1_0000_0000) as u32);
    let lo = be32((value % 0x1_0000_0000) as u32);
    assert(be64(value) =~= hi + lo);
    assert(data[0] == (code * 32 + 27) as u8);
    assert(data.subrange(1, 5) =~= hi);
    assert(data.subrange(5, 9) =~= lo);
    lemma_be4_shifted(data, hi, 1);
    lemma_be4_shifted(data, lo, 5);
    lemma_be32_value((value / 0x1_0000_0000) as u32);
    lemma_be32_value((value % 0x1_0000_0000) as u32);
}

/// A head that the encoder writes is read back as it was written, whatever
/// follows it.
pub proof fn lemma_head_round_trip(code: u8, value: u64, rest: Seq<u8>)
    requires
        code < 8,
    ensures
        head_at(head(code, value) + rest, 0, (head(code, value) + rest).len() as int) == Ok::<
            (u8, u64, int),
            DumpError,
        >((code, value, head(code, value).len() as int)),
{
    if value <= 0xffff {
        lemma_short_head_round_trip(code, value, rest);
    } else if value <= 0xffff_ffff {
        lemma_word_head_round_trip(code, value, rest);
    } else {
        lemma_long_head_round_trip(code, value, rest);
    }
}

/// Whether the bytes are text in UTF-8.
///
/// Calls `std::str::from_utf8`, which accepts exactly the byte strings that
/// are valid UTF-8.
#[verifier::external_body]
pub(crate) fn is_utf8(data: &[u8]) -> (res: bool)
    ensures
        res == valid_utf8(data@),
{
    std::str::from_utf8(data).is_ok()
}

/// Query if a given bytestring should be decoded as additional CBOR.
pub trait SubDecode {
    /// Whether `data`, found at the place `context`, holds CBOR that is to
    /// be decoded.
    spec fn decodes(&self, data: Seq<u8>, context: Seq<ContextItem>) -> bool;

    /// Determine if the given data should be decoded as additional CBOR.
    fn should_decode(&self, data: &Vec<u8>, context: &Context) -> (res: bool)
        ensures
            res == self.decodes(data@, context@),
    ;
}

/// What walking over a piece of CBOR gives: the lines of the items that were
/// met, the number of bytes that were read, the context afterwards, and why
/// the walk stopped, if it did before its end.
pub ghost struct Walked {
    pub lines: Seq<Line>,
    pub used: nat,
    pub context: Seq<ContextItem>,
    pub error: Option<DumpError>,
}

/// The number of bytes from `pos` to `end`.
pub open spec fn left(pos: int, end: int) -> nat {
    if pos < end {
        (end - pos) as nat
    } else {
        0
    }
}

/// A walk that stopped after the given lines.
pub open spec fn stopped(lines: Seq<Line>, context: Seq<ContextItem>, error: DumpError) -> Walked {
    Walked { lines, used: 0, context, error: Some(error) }
}

/// The walk over an item that holds no other: its line, and the context
/// advanced by one.
pub open spec fn single(line: Line, used: int, context: Seq<ContextItem>) -> Walked {
    Walked { lines: seq![line], used: used as nat, context: advanced(context), error: None }
}

/// A walk that goes on after an inner walk: the line of the enclosing item
/// comes first, and an inner walk that stopped stops this one.
pub open spec fn enclosing(
    line: Line,
    len: int,
    inner: Walked,
    context: Seq<ContextItem>,
) -> Walked {
    Walked {
        lines: seq![line] + inner.lines,
        used: if inner.error is Some {
            0
        } else {
            (len + inner.used) as nat
        },
        context,
        error: inner.error,
    }
}

/// What a simple value is, if it is one of those that are known.
pub open spec fn special(count: u64) -> Option<Kind> {
    if count == 20 {
        Some(Kind::False)
    } else if count == 21 {
        Some(Kind::True)
    } else if count == 22 {
        Some(Kind::Null)
    } else if count == 23 {
        Some(Kind::Undefined)
    } else {
        None
    }
}

/// The walk over the one item that starts at `pos`, in bytes that end at
/// `end`.
///
/// The line of an item comes before those of the items it holds.  A string
/// takes as many bytes as its head says; a byte string that `nests` takes
/// for CBOR is walked as one item, one level deeper.  An array holds as
/// many items as its head says, a map twice as many, and a tag one.  Each
/// item advances the context by one; a tagged item by one more.
pub open spec fn walked<S: SubDecode>(
    nests: S,
    data: Seq<u8>,
    pos: int,
    end: int,
    context: Seq<ContextItem>,
) -> Walked
    decreases left(pos, end), 0nat,
{
    match head_at(data, pos, end) {
        Err(e) => stopped(Seq::empty(), context, e),
        Ok((code, count, len)) => {
            let at = pos + len;
            let line = Line {
                depth: context.len() as usize,
                code,
                count,
                kind: Kind::Integer,
                at: at as usize,
            };
            if code == 0 {
                single(Line { kind: Kind::Integer, ..line }, len, context)
            } else if code == 1 {
                single(Line { kind: Kind::NegInteger, ..line }, len, context)
            } else if code == 2 {
                if count > end - at {
                    stopped(
                        seq![Line { kind: Kind::ByteString, ..line }],
                        context,
                        DumpError::Truncated,
                    )
                } else if nests.decodes(data.subrange(at, at + count), context) {
                    enclosing(
                        Line { kind: Kind::Embedded, ..line },
                        len + count,
                        Walked {
                            used: 0,
                            ..walked(
                                nests,
                                data,
                                at,
                                at + count,
                                context.push(ContextItem::Nested),
                            )
                        },
                        advanced(context),
                    )
                } else {
                    single(Line { kind: Kind::ByteString, ..line }, len + count, context)
                }
            } else if code == 3 {
                if count > end - at {
                    stopped(seq![Line { kind: Kind::Utf8, ..line }], context, DumpError::Truncated)
                } else if !valid_utf8(data.subrange(at, at + count)) {
                    stopped(seq![Line { kind: Kind::Utf8, ..line }], context, DumpError::BadText)
                } else {
                    single(Line { kind: Kind::Utf8, ..line }, len + count, context)
                }
            } else if code == 4 {
                enclosing(
                    Line { kind: Kind::ArrayHead, ..line },
                    len,
                    walked_many(
                        nests,
                        data,
                        at,
                        end,
                        context.push(ContextItem::Array(0)),
                        count as nat,
                    ),
                    advanced(context),
                )
            } else if code == 5 {
                enclosing(
                    Line { kind: Kind::MapHead, ..line },
                    len,
                    walked_many(
                        nests,
                        data,
                        at,
                        end,
                        context.push(ContextItem::MapEntry(0)),
                        2 * count as nat,
                    ),
                    advanced(context),
                )
            } else if code == 6 {
                let inner = walked(nests, data, at, end, context);
                enclosing(Line { kind: Kind::Tag, ..line }, len, inner, advanced(inner.context))
            } else {
                match special(count) {
                    Some(kind) => single(Line { kind, ..line }, len, context),
                    None => stopped(Seq::empty(), context, DumpError::BadSpecial),
                }
            }
        },
    }
}

/// The walk over `n` items in a row, the first of which starts at `pos`.
pub open spec fn walked_many<S: SubDecode>(
    nests: S,
    data: Seq<u8>,
    pos: int,
    end: int,
    context: Seq<ContextItem>,
    n: nat,
) -> Walked
    decreases left(pos, end), n + 1,
{
    if n == 0 {
        Walked { lines: Seq::empty(), used: 0, context, error: None }
    } else {
        let first = walked(nests, data, pos, end, context);
        if first.error is Some {
            first
        } else {
            let rest = walked_many(
                nests,
                data,
                pos + first.used,
                end,
                first.context,
                (n - 1) as nat,
            );
            Walked {
                lines: first.lines + rest.lines,
                used: if rest.error is Some {
                    0
                } else {
                    first.used + rest.used
                },
                context: rest.context,
                error: rest.error,
            }
        }
    }
}

/// The digit that stands for a number below 16, in lower case.
pub open spec fn hex_digit(n: u8) -> u8 {
    if n < 10 {
        (48 + n) as u8
    } else {
        (87 + n) as u8
    }
}

/// The bytes as text: two digits for each, the high one first.
pub open spec fn hex_text(data: Seq<u8>) -> Seq<u8> {
    Seq::new(
        2 * data.len(),
        |i: int|
            hex_digit(
                if i % 2 == 0 {
                    data[i / 2] / 16
                } else {
                    data[i / 2] % 16
                },
            ),
    )
}

/// The digit that stands for a number below 16, in lower case.
pub fn hex_digit_of(n: u8) -> (res: u8)
    requires
        n < 16,
    ensures
        res == hex_digit(n),
{
    if n < 10 {
        48 + n
    } else {
        87 + n
    }
}

/// The bytes as text: two digits in lower case for each.
pub fn hex_encode(data: &Vec<u8>) -> (res: Vec<u8>)
    ensures
        res@ == hex_text(data@),
{
    let mut res: Vec<u8> = Vec::new();
    let mut i: usize = 0;
    while i < data.len()
        invariant
            i <= data.len(),
            res@.len() == 2 * i,
            forall|j: int| 0 <= j < 2 * i ==> #[trigger] res@[j] == hex_text(data@)[j],
        decreases data.len() - i,
    {
        let b: u8 = data[i];
        res.push(hex_digit_of(b / 16));
        res.push(hex_digit_of(b % 16));
        i = i + 1;
    }
    assert(res@ =~= hex_text(data@));
    res
}

/// The key of a byte string: the first eight digits of its SHA-256 digest.
pub open spec fn key_of(data: Seq<u8>) -> Seq<u8> {
    hex_text(sha256_digest(data).subrange(0, 4))
}

/// Decodes the byte strings whose key is one of the given ones, wherever
/// they stand.
pub struct Keys(pub Vec<Vec<u8>>);

impl SubDecode for Keys {
    open spec fn decodes(&self, data: Seq<u8>, context: Seq<ContextItem>) -> bool {
        exists|k: int| 0 <= k < self.0@.len() && (#[trigger] self.0@[k])@ == key_of(data)
    }

    fn should_decode(&self, data: &Vec<u8>, context: &Context) -> (res: bool) {
        let hash: Vec<u8> = sha256(data.as_slice());
        let start: Vec<u8> = copy_range(&hash, 0, 4);
        let key: Vec<u8> = hex_encode(&start);
        let mut k: usize = 0;
        while k < self.0.len()
            invariant
                k <= self.0@.len(),
                key@ == key_of(data@),
                forall|j: int| 0 <= j < k ==> (#[trigger] self.0@[j])@ != key_of(data@),
            decreases self.0@.len() - k,
        {
            if same_bytes(&self.0[k], &key) {
                return true;
            }
            k = k + 1;
        }
        false
    }
}

/// The places where a manifest holds CBOR within a byte string, as the text
/// of their context.
pub open spec fn deep_places() -> Seq<Seq<u8>> {
    seq![
        seq![0x6du8, 0x31, 0x61, 0x30],
        seq![0x6du8, 0x31, 0x61, 0x33, 0x61, 0x30, 0x61, 0x30],
        seq![0x6du8, 0x34],
        seq![0x6du8, 0x34, 0x6e, 0x6d, 0x35, 0x61, 0x30, 0x6d, 0x35, 0x61, 0x30],
    ]
}

/// A simple subtype that attempts to decode nested CBOR: it decodes the
/// byte strings at the places where a manifest holds CBOR.
pub struct Deep();

impl SubDecode for Deep {
    open spec fn decodes(&self, data: Seq<u8>, context: Seq<ContextItem>) -> bool {
        deep_places().contains(context_text(context))
    }

    fn should_decode(&self, data: &Vec<u8>, context: &Context) -> (res: bool) {
        let textual: Vec<u8> = context.to_text();
        let first: Vec<u8> = vec![0x6du8, 0x31, 0x61, 0x30];
        let second: Vec<u8> = vec![0x6du8, 0x31, 0x61, 0x33, 0x61, 0x30, 0x61, 0x30];
        let third: Vec<u8> = vec![0x6du8, 0x34];
        let fourth: Vec<u8> = vec![
            0x6du8,
            0x34,
            0x6e,
            0x6d,
            0x35,
            0x61,
            0x30,
            0x6d,
            0x35,
            0x61,
            0x30,
        ];
        proof {
            let places = deep_places();
            assert(first@ =~= places[0] && second@ =~= places[1] && third@ =~= places[2]
                && fourth@ =~= places[3]);
        }
        same_bytes(&textual, &first) || same_bytes(&textual, &second) || same_bytes(
            &textual,
            &third,
        ) || same_bytes(&textual, &fourth)
    }
}

/// An unsigned number that the encoder writes is walked as one line that
/// holds the number, whatever follows it.
pub proof fn lemma_walk_reads_unsigned<S: SubDecode>(
    nests: S,
    value: u64,
    rest: Seq<u8>,
    context: Seq<ContextItem>,
)
    ensures
        walked(nests, head(0, value) + rest, 0, (head(0, value) + rest).len() as int, context)
            == single(
            Line {
                depth: context.len() as usize,
                code: 0,
                count: value,
                kind: Kind::Integer,
                at: head(0, value).len() as usize,
            },
            head(0, value).len() as int,
            context,
        ),
{
    lemma_head_round_trip(0, value, rest);
}

/// A decoder that walks over a piece of CBOR and gathers the lines of its
/// dump.
pub struct CborDump<S: SubDecode> {
    data: Vec<u8>,
    pos: usize,
    end: usize,
    nests: S,
    context: Context,
    lines: Vec<Line>,
}

impl<S: SubDecode> CborDump<S> {
    /// The lines gathered so far.
    pub closed spec fn view(&self) -> Seq<Line> {
        self.lines@
    }

    /// The bytes that are decoded.
    pub closed spec fn spec_data(&self) -> Seq<u8> {
        self.data@
    }

    /// Where the next item starts.
    pub closed spec fn spec_pos(&self) -> int {
        self.pos as int
    }

    /// Where the bytes end that the decoder reads.
    pub closed spec fn spec_end(&self) -> int {
        self.end as int
    }

    /// What decides which byte strings are decoded.
    pub closed spec fn spec_nests(&self) -> S {
        self.nests
    }

    /// Where the decoder stands.
    pub closed spec fn spec_context(&self) -> Seq<ContextItem> {
        self.context@
    }

    /// The decoder stands within its bytes.
    pub closed spec fn wf(&self) -> bool {
        self.pos <= self.end <= self.data@.len()
    }

    /// The walk over the next item.
    pub open spec fn walk_of(&self) -> Walked {
        walked(
            self.spec_nests(),
            self.spec_data(),
            self.spec_pos(),
            self.spec_end(),
            self.spec_context(),
        )
    }

    /// Whether this is the decoder `before` after the walk `walk` that
    /// reported `res`: the lines of the walk were added, and the walk is
    /// reported to have stopped if it did.  After a walk that did not stop,
    /// the decoder stands behind what was read, in the context of the walk:
    /// as deep as before, and changed at the innermost level alone.
    pub open spec fn after(&self, before: CborDump<S>, walk: Walked, res: Result<(), DumpError>)
        -> bool {
        &&& self.wf()
        &&& self.spec_data() == before.spec_data()
        &&& self.spec_end() == before.spec_end()
        &&& self.spec_nests() == before.spec_nests()
        &&& self@ == before@ + walk.lines
        &&& match res {
            Ok(()) => {
                &&& walk.error is None
                &&& self.spec_pos() == before.spec_pos() + walk.used
                &&& self.spec_context() == walk.context
                &&& walk.context.len() == before.spec_context().len()
                &&& forall|i: int|
                    0 <= i < walk.context.len() - 1 ==> walk.context[i] == before.spec_context()[i]
            },
            Err(e) => walk.error == Some(e),
        }
    }

    /// A decoder at the start of `data`, without lines.
    pub fn new(data: Vec<u8>, nests: S) -> (res: CborDump<S>)
        ensures
            res.wf(),
            res@ == Seq::<Line>::empty(),
            res.spec_data() == data@,
            res.spec_pos() == 0,
            res.spec_end() == data@.len(),
            res.spec_nests() == nests,
            res.spec_context() == Seq::<ContextItem>::empty(),
    {
        let end: usize = data.len();
        CborDump { data, pos: 0, end, nests, context: Context::new(), lines: Vec::new() }
    }

    /// The lines gathered so far.
    pub fn lines(&self) -> (res: &Vec<Line>)
        ensures
            res@ == self@,
    {
        &self.lines
    }

    /// Where the next item starts.
    pub fn position(&self) -> (res: usize)
        ensures
            res == self.spec_pos(),
    {
        self.pos
    }

    /// Where the decoder stands.
    pub fn context(&self) -> (res: &Context)
        ensures
            res@ == self.spec_context(),
    {
        &self.context
    }

    /// The bytes that are decoded.
    pub fn data(&self) -> (res: &Vec<u8>)
        ensures
            res@ == self.spec_data(),
    {
        &self.data
    }

    /// Walks over the next item, as `walk` does.
    pub fn dump(&mut self) -> (res: Result<(), DumpError>)
        requires
            old(self).wf(),
        ensures
            final(self).after(*old(self), old(self).walk_of(), res),
    {
        self.walk()
    }

    // Adds a line.
    fn put(&mut self, line: Line)
        ensures
            final(self).data == old(self).data,
            final(self).pos == old(self).pos,
            final(self).end == old(self).end,
            final(self).nests == old(self).nests,
            final(self).context == old(self).context,
            final(self).lines@ == old(self).lines@ + seq![line],
    {
        self.lines.push(line);
        assert(self.lines@ =~= old(self).lines@ + seq![line]);
    }

    // An item that holds no other: its line, and on behind it.
    fn alone(&mut self, line: Line, to: usize)
        requires
            old(self).wf(),
            old(self).pos <= to <= old(self).end,
        ensures
            final(self).wf(),
            final(self).data == old(self).data,
            final(self).end == old(self).end,
            final(self).nests == old(self).nests,
            final(self).lines@ == old(self).lines@ + seq![line],
            final(self).pos == to,
            final(self).context@ == advanced(old(self).context@),
    {
        self.lines.push(line);
        self.pos = to;
        self.context.succ();
        assert(self.lines@ =~= old(self).lines@ + seq![line]);
    }

    /// Walk a CBOR structure from where the decoder stands: one item, with
    /// the items that it holds.
    #[verifier::rlimit(60)]
    pub fn walk(&mut self) -> (res: Result<(), DumpError>)
        requires
            old(self).wf(),
        ensures
            final(self).after(*old(self), old(self).walk_of(), res),
        decreases left(old(self).spec_pos(), old(self).spec_end()), 0nat,
    {
        let ghost context = self.context@;
        let ghost walk = self.walk_of();
        let (code, count, len) = read_head(&self.data, self.pos, self.end)?;
        let at: usize = self.pos + len;
        let depth: usize = self.context.0.len();
        let room: usize = self.end - at;
        if code == 0 {
            self.alone(Line { depth, code, count, kind: Kind::Integer, at }, at);
            Ok(())
        } else if code == 1 {
            self.alone(Line { depth, code, count, kind: Kind::NegInteger, at }, at);
            Ok(())
        } else if code == 2 {
            if count > room as u64 {
                self.put(Line { depth, code, count, kind: Kind::ByteString, at });
                return Err(DumpError::Truncated);
            }
            let size: usize = count as usize;
            let buf: Vec<u8> = copy_range(&self.data, at, at + size);
            // Sometimes byte strings are nested CBOR elements, but this
            // can't be determined without knowing the schema.
            if self.nests.should_decode(&buf, &self.context) {
                self.put(Line { depth, code, count, kind: Kind::Embedded, at });
                let outer: usize = self.end;
                self.end = at + size;
                self.pos = at;
                self.context.push(ContextItem::Nested);
                let ghost deeper = self.walk_of();
                let inner = self.walk();
                self.end = outer;
                proof {
                    let line = Line { depth, code, count, kind: Kind::Embedded, at };
                    assert(walk == enclosing(
                        line,
                        len + count,
                        Walked { used: 0, ..deeper },
                        advanced(context),
                    ));
                    assert(old(self).lines@ + seq![line] + deeper.lines =~= old(self).lines@ + (
                    seq![line] + deeper.lines));
                }
                inner?;
                self.context.pop();
                assert(self.context@ =~= context);
                self.pos = at + size;
                self.context.succ();
                Ok(())
            } else {
                self.alone(Line { depth, code, count, kind: Kind::ByteString, at }, at + size);
                Ok(())
            }
        } else if code == 3 {
            if count > room as u64 {
                self.put(Line { depth, code, count, kind: Kind::Utf8, at });
                return Err(DumpError::Truncated);
            }
            let size: usize = count as usize;
            let buf: Vec<u8> = copy_range(&self.data, at, at + size);
            if !is_utf8(buf.as_slice()) {
                self.put(Line { depth, code, count, kind: Kind::Utf8, at });
                return Err(DumpError::BadText);
            }
            self.alone(Line { depth, code, count, kind: Kind::Utf8, at }, at + size);
            Ok(())
        } else if code == 4 {
            self.put(Line { depth, code, count, kind: Kind::ArrayHead, at });
            self.pos = at;
            self.context.push(ContextItem::Array(0));
            let ghost inner = walked_many(
                self.nests,
                self.data@,
                at as int,
                self.end as int,
                self.context@,
                count as nat,
            );
            let many = self.walk_many(count as u128);
            proof {
                let line = Line { depth, code, count, kind: Kind::ArrayHead, at };
                assert(walk == enclosing(line, len as int, inner, advanced(context)));
                assert(old(self).lines@ + seq![line] + inner.lines =~= old(self).lines@ + (
                seq![line] + inner.lines));
            }
            many?;
            self.context.pop();
            assert(self.context@ =~= context);
            self.context.succ();
            Ok(())
        } else if code == 5 {
            self.put(Line { depth, code, count, kind: Kind::MapHead, at });
            self.pos = at;
            self.context.push(ContextItem::MapEntry(0));
            let ghost inner = walked_many(
                self.nests,
                self.data@,
                at as int,
                self.end as int,
                self.context@,
                2 * count as nat,
            );
            let many = self.walk_many(2 * (count as u128));
            proof {
                let line = Line { depth, code, count, kind: Kind::MapHead, at };
                assert(walk == enclosing(line, len as int, inner, advanced(context)));
                assert(old(self).lines@ + seq![line] + inner.lines =~= old(self).lines@ + (
                seq![line] + inner.lines));
            }
            many?;
            self.context.pop();
            assert(self.context@ =~= context);
            self.context.succ();
            Ok(())
        } else if code == 6 {
            self.put(Line { depth, code, count, kind: Kind::Tag, at });
            self.pos = at;
            let ghost inner = self.walk_of();
            let tagged = self.walk();
            proof {
                let line = Line { depth, code, count, kind: Kind::Tag, at };
                assert(walk == enclosing(line, len as int, inner, advanced(inner.context)));
                assert(old(self).lines@ + seq![line] + inner.lines =~= old(self).lines@ + (
                seq![line] + inner.lines));
            }
            tagged?;
            self.context.succ();
            Ok(())
        } else {
            let kind: Kind = if count == 20 {
                Kind::False
            } else if count == 21 {
                Kind::True
            } else if count == 22 {
                Kind::Null
            } else if count == 23 {
                Kind::Undefined
            } else {
                return Err(DumpError::BadSpecial);
            };
            self.alone(Line { depth, code, count, kind, at }, at);
            Ok(())
        }
    }

    // Walks over `n` items in a row.
    fn walk_many(&mut self, n: u128) -> (res: Result<(), DumpError>)
        requires
            old(self).wf(),
        ensures
            final(self).after(
                *old(self),
                walked_many(
                    old(self).spec_nests(),
                    old(self).spec_data(),
                    old(self).spec_pos(),
                    old(self).spec_end(),
                    old(self).spec_context(),
                    n as nat,
                ),
                res,
            ),
        decreases left(old(self).spec_pos(), old(self).spec_end()), 1nat,
    {
        let ghost all = walked_many(
            self.nests,
            self.data@,
            self.pos as int,
            self.end as int,
            self.context@,
            n as nat,
        );
        let mut i: u128 = 0;
        while i < n
            invariant
                i <= n,
                self.wf(),
                all == walked_many(
                    old(self).nests,
                    old(self).data@,
                    old(self).pos as int,
                    old(self).end as int,
                    old(self).context@,
                    n as nat,
                ),
                self.data@ == old(self).data@,
                self.end == old(self).end,
                self.nests == old(self).nests,
                self.pos >= old(self).pos,
                self.context@.len() == old(self).context@.len(),
                forall|k: int|
                    0 <= k < self.context@.len() - 1 ==> self.context@[k] == old(self).context@[k],
                ({
                    let rem = walked_many(
                        self.nests,
                        self.data@,
                        self.pos as int,
                        self.end as int,
                        self.context@,
                        (n - i) as nat,
                    );
                    &&& self.lines@ + rem.lines == old(self).lines@ + all.lines
                    &&& rem.error == all.error
                    &&& rem.error is None ==> all.used == (self.pos - old(self).pos) + rem.used
                        && all.context == rem.context
                }),
            decreases n - i,
        {
            let ghost before = *self;
            let ghost first = self.walk_of();
            let ghost rest = walked_many(
                self.nests,
                self.data@,
                self.pos + first.used,
                self.end as int,
                first.context,
                (n - i - 1) as nat,
            );
            let ghost rem = walked_many(
                self.nests,
                self.data@,
                self.pos as int,
                self.end as int,
                self.context@,
                (n - i) as nat,
            );
            let one = self.walk();
            proof {
                assert(before.lines@ + first.lines + rest.lines =~= before.lines@ + (first.lines
                    + rest.lines));
                if first.error is Some {
                    assert(rem == first);
                } else {
                    assert(rem.lines == first.lines + rest.lines);
                    assert(rem.error == rest.error);
                }
            }
            one?;
            i = i + 1;
        }
        Ok(())
    }
}

} // verus!

//! A simplistic CBOR encoder.
//!
//! Rather than having a data type that it represents, the encoder offers a
//! simple "push" interface.  Because the encoding is always definite, an
//! array or a map is pushed with a known length, and the encoder keeps track
//! of how many items are still to come.

use vstd::prelude::*;
use vstd::string::StringSliceAdditionalSpecFns;

verus! {

/// What nested item the encoder is currently in.  The count is the number of
/// items that are still to be written; for a map, twice the count given by
/// the user.
#[derive(Copy, Clone, Debug, PartialEq, Eq, Structural)]
pub enum Nested {
    Single,
    InMap(usize),
    InArray(usize),
}

/// A CBOR encoder.  It tracks nested items to ensure that the resulting
/// data is coherent, but it is up to the caller to open and close everything
/// correctly.
pub struct Encoder {
    writer: Vec<u8>,
    nested: Vec<Nested>,
}

/// The two bytes of `x`, the high one first.
pub open spec fn be16(x: u16) -> Seq<u8> {
    seq![(x / 256) as u8, (x % 256) as u8]
}

/// The four bytes of `x`, the highest first.
pub open spec fn be32(x: u32) -> Seq<u8> {
    seq![
        (x / 16777216) as u8,
        (x / 65536 % 256) as u8,
        (x / 256 % 256) as u8,
        (x % 256) as u8,
    ]
}

/// The eight bytes of `x`, the highest first.
pub open spec fn be64(x: u64) -> Seq<u8> {
    be32((x / 0x1_0000_0000) as u32) + be32((x % 0x1_0000_0000) as u32)
}

/// The head of an item: its major type in the high three bits of the first
/// byte, and its value in the low five bits if it is below 24, else in the
/// one, two, four or eight bytes that follow, whichever is the least that
/// holds it.
pub open spec fn head(code: u8, value: u64) -> Seq<u8> {
    if value < 24 {
        seq![(code * 32 + value) as u8]
    } else if value <= 0xff {
        seq![(code * 32 + 24) as u8, value as u8]
    } else if value <= 0xffff {
        seq![(code * 32 + 25) as u8] + be16(value as u16)
    } else if value <= 0xffff_ffff {
        seq![(code * 32 + 26) as u8] + be32(value as u32)
    } else {
        seq![(code * 32 + 27) as u8] + be64(value)
    }
}

/// Whether nothing is left to write of a nested item: it is an array or a
/// map whose items were all written.
pub open spec fn is_done(item: Nested) -> bool {
    item == Nested::InMap(0) || item == Nested::InArray(0)
}

/// The nesting without the arrays and maps at its end that are complete.
pub open spec fn settle(nested: Seq<Nested>) -> Seq<Nested>
    decreases nested.len(),
{
    if nested.len() > 0 && is_done(nested.last()) {
        settle(nested.drop_last())
    } else {
        nested
    }
}

/// The nesting after one more item was written: the innermost item expects
/// one item less, and what is complete is closed.  `None` if no item was
/// expected.
#[verifier::opaque]
pub open spec fn account(nested: Seq<Nested>) -> Option<Seq<Nested>> {
    if nested.len() == 0 {
        None
    } else {
        let rest = nested.drop_last();
        Some(
            settle(
                match nested.last() {
                    Nested::Single => rest,
                    Nested::InMap(n) => if n == 0 {
                        rest
                    } else {
                        rest.push(Nested::InMap((n - 1) as usize))
                    },
                    Nested::InArray(n) => if n == 0 {
                        rest
                    } else {
                        rest.push(Nested::InArray((n - 1) as usize))
                    },
                },
            ),
        )
    }
}

impl Encoder {
    /// The bytes written so far.
    pub closed spec fn view(&self) -> Seq<u8> {
        self.writer@
    }

    /// The items that are open, the innermost last.
    pub closed spec fn spec_nested(&self) -> Seq<Nested> {
        self.nested@
    }

    /// What pushing an item whose encoding is `bytes` does, where an item is
    /// expected: the bytes are written and the item is accounted for, then
    /// `open` is opened, if it is given.
    pub open spec fn pushed(&self, before: Encoder, bytes: Seq<u8>, open: Option<Nested>) -> bool {
        &&& self@ == before@ + bytes
        &&& account(before.spec_nested()) is Some
        &&& self.spec_nested() == match open {
            Some(item) => account(before.spec_nested())->0.push(item),
            None => account(before.spec_nested())->0,
        }
    }

    /// Whether the encoder expects an item.
    pub open spec fn expecting(&self) -> bool {
        self.spec_nested().len() > 0
    }

    /// Tells whether the encoder expects an item.  Only then can an item be
    /// added.
    pub fn expects_item(&self) -> (res: bool)
        ensures
            res == self.expecting(),
    {
        self.nested.len() > 0
    }

    /// Construct a new encoder, which expects a single item.
    pub fn new() -> (res: Encoder)
        ensures
            res@ == Seq::<u8>::empty(),
            res.spec_nested() == seq![Nested::Single],
    {
        let mut nested: Vec<Nested> = Vec::new();
        nested.push(Nested::Single);
        assert(nested@ =~= seq![Nested::Single]);
        Encoder { writer: Vec::new(), nested }
    }

    /// The bytes written so far.
    pub fn bytes(&self) -> (res: &Vec<u8>)
        ensures
            res@ == self@,
    {
        &self.writer
    }

    /// Hands out the bytes that were written.
    pub fn into_inner(self) -> (res: Vec<u8>)
        ensures
            res@ == self@,
    {
        self.writer
    }

    /// Closes the arrays and maps at the end of the nesting that are
    /// complete.
    fn settle_nested(&mut self)
        ensures
            final(self).nested@ == settle(old(self).nested@),
            final(self).writer@ == old(self).writer@,
    {
        while self.nested.len() > 0 && (self.nested[self.nested.len() - 1] == Nested::InMap(0)
            || self.nested[self.nested.len() - 1] == Nested::InArray(0))
            invariant
                settle(self.nested@) == settle(old(self).nested@),
                self.writer@ == old(self).writer@,
            decreases self.nested.len(),
        {
            let ghost before = self.nested@;
            self.nested.pop();
            assert(self.nested@ =~= before.drop_last());
        }
    }

    /// Adjust the nesting for one more item.
    fn account_item(&mut self)
        requires
            old(self).nested@.len() > 0,
        ensures
            final(self).writer@ == old(self).writer@,
            account(old(self).nested@) is Some,
            final(self).nested@ == account(old(self).nested@)->0,
    {
        reveal(account);
        let ghost before = self.nested@;
        match self.nested.pop() {
            None => {},
            // Expecting to write a single item, so discard the write.
            Some(Nested::Single) => {},
            // For maps and arrays, decrement the counter, until zero, where
            // it will end the map or array.
            Some(Nested::InMap(n)) => {
                if n > 0 {
                    self.nested.push(Nested::InMap(n - 1));
                }
            },
            Some(Nested::InArray(n)) => {
                if n > 0 {
                    self.nested.push(Nested::InArray(n - 1));
                }
            },
        }
        assert(self.nested@ =~= match before.last() {
            Nested::Single => before.drop_last(),
            Nested::InMap(n) => if n == 0 {
                before.drop_last()
            } else {
                before.drop_last().push(Nested::InMap((n - 1) as usize))
            },
            Nested::InArray(n) => if n == 0 {
                before.drop_last()
            } else {
                before.drop_last().push(Nested::InArray((n - 1) as usize))
            },
        });
        // Now pop off any zero-arity items.
        self.settle_nested();
    }

    /// Write the head of an item.
    fn add_code(&mut self, code: u8, value: u64)
        requires
            code <= 7,
        ensures
            final(self).writer@ == old(self).writer@ + head(code, value),
            final(self).nested@ == old(self).nested@,
    {
        let major: u8 = code * 32;
        if value < 24 {
            self.writer.push(major + value as u8);
        } else if value <= 0xff {
            self.writer.push(major + 24);
            self.writer.push(value as u8);
        } else if value <= 0xffff {
            self.writer.push(major + 25);
            self.writer.push((value / 256) as u8);
            self.writer.push((value % 256) as u8);
        } else if value <= 0xffff_ffff {
            self.writer.push(major + 26);
            self.push_be32(value as u32);
        } else {
            self.writer.push(major + 27);
            self.push_be32((value / 0x1_0000_0000) as u32);
            self.push_be32((value % 0x1_0000_0000) as u32);
        }
        assert(self.writer@ =~= old(self).writer@ + head(code, value));
    }

    fn push_be32(&mut self, x: u32)
        ensures
            final(self).writer@ == old(self).writer@ + be32(x),
            final(self).nested@ == old(self).nested@,
    {
        self.writer.push((x / 16777216) as u8);
        self.writer.push((x / 65536 % 256) as u8);
        self.writer.push((x / 256 % 256) as u8);
        self.writer.push((x % 256) as u8);
        assert(self.writer@ =~= old(self).writer@ + be32(x));
    }

    fn push_bytes(&mut self, data: &[u8])
        ensures
            final(self).writer@ == old(self).writer@ + data@,
            final(self).nested@ == old(self).nested@,
    {
        let mut i: usize = 0;
        while i < data.len()
            invariant
                i <= data.len(),
                self.writer@ == old(self).writer@ + data@.subrange(0, i as int),
                self.nested@ == old(self).nested@,
            decreases data.len() - i,
        {
            self.writer.push(data[i]);
            assert(data@.subrange(0, i + 1) =~= data@.subrange(0, i as int).push(data@[i as int]));
            i = i + 1;
        }
        assert(data@.subrange(0, data@.len() as int) =~= data@);
    }

    /// Write an unsigned integer.
    pub fn add_unsigned(&mut self, value: usize)
        requires
            old(self).expecting(),
        ensures
            final(self).pushed(*old(self), head(0, value as u64), None),
    {
        self.account_item();
        self.add_code(0, value as u64);
    }

    /// Write a signed integer: a negative one as the distance from -1.
    pub fn add_signed(&mut self, value: isize)
        requires
            old(self).expecting(),
        ensures
            final(self).pushed(
                *old(self),
                if value < 0 {
                    head(1, (-1 - value) as u64)
                } else {
                    head(0, value as u64)
                },
                None,
            ),
    {
        self.account_item();
        if value < 0 {
            self.add_code(1, (-1 - value) as u64);
        } else {
            self.add_code(0, value as u64);
        }
    }

    /// Add a tag.  The item that it tags is expected next.
    pub fn add_tag(&mut self, value: usize)
        requires
            old(self).expecting(),
        ensures
            final(self).pushed(*old(self), head(6, value as u64), Some(Nested::Single)),
    {
        self.account_item();
        self.add_code(6, value as u64);
        self.nested.push(Nested::Single);
    }

    /// Add a byte-string.
    pub fn add_bytestring(&mut self, data: &[u8])
        requires
            old(self).expecting(),
        ensures
            final(self).pushed(*old(self), head(2, data@.len() as u64) + data@, None),
    {
        self.account_item();
        self.add_code(2, data.len() as u64);
        self.push_bytes(data);
        assert(self.writer@ =~= old(self).writer@ + (head(2, data@.len() as u64) + data@));
    }

    /// Add a string of text.
    pub fn add_utf8(&mut self, text: &str)
        requires
            old(self).expecting(),
        ensures
            final(self).pushed(
                *old(self),
                head(3, text.spec_bytes().len() as u64) + text.spec_bytes(),
                None,
            ),
    {
        self.account_item();
        let data: &[u8] = text.as_bytes();
        self.add_code(3, data.len() as u64);
        self.push_bytes(data);
        assert(self.writer@ =~= old(self).writer@ + (head(3, data@.len() as u64) + data@));
    }

    /// Add an array.  The caller must then encode `len` items in order to
    /// close out the array.
    pub fn add_array(&mut self, len: usize)
        requires
            old(self).expecting(),
        ensures
            final(self).pushed(
                *old(self),
                head(4, len as u64),
                if len > 0 {
                    Some(Nested::InArray(len))
                } else {
                    None
                },
            ),
    {
        self.account_item();
        self.add_code(4, len as u64);
        if len > 0 {
            self.nested.push(Nested::InArray(len));
        }
    }

    /// Add a map to the CBOR.  'len' should be the number of elements in the
    /// map.  The caller must then encode 2 items for each of these elements
    /// in order to close out the map.  A map cannot have more elements than
    /// half of what can be counted.
    pub fn add_map(&mut self, len: usize)
        requires
            old(self).expecting(),
            len <= usize::MAX / 2,
        ensures
            final(self).pushed(
                *old(self),
                head(5, len as u64),
                if len > 0 {
                    Some(Nested::InMap((len * 2) as usize))
                } else {
                    None
                },
            ),
    {
        self.account_item();
        self.add_code(5, len as u64);
        if len > 0 {
            self.nested.push(Nested::InMap(len * 2));
        }
    }

    /// Add the value null.
    pub fn add_null(&mut self)
        requires
            old(self).expecting(),
        ensures
            final(self).pushed(*old(self), head(7, 22), None),
    {
        self.account_item();
        self.add_code(7, 22);
    }

    /// Whether the CBOR encoded is complete: nothing is left open.
    pub fn is_complete(&self) -> (res: bool)
        ensures
            res == (self.spec_nested().len() == 0),
    {
        self.nested.len() == 0
    }

    /// Check that the CBOR encoded is complete: nothing is left open.  This
    /// is only to be called after the item is fully written, which
    /// `is_complete` tells.
    pub fn assert_complete(&self)
        requires
            self.spec_nested().len() == 0,
    {
    }
}

/// The encoder never leaves a complete array or map open.
pub proof fn lemma_settled_is_open(nested: Seq<Nested>)
    ensures
        settle(nested).len() > 0 ==> !is_done(settle(nested).last()),
        settle(nested).len() <= nested.len(),
    decreases nested.len(),
{
    if nested.len() > 0 && is_done(nested.last()) {
        lemma_settled_is_open(nested.drop_last());
    }
}

/// An item that is pushed where a single item is expected, and that opens
/// nothing, completes the encoding.
pub proof fn lemma_single_item_completes()
    ensures
        account(seq![Nested::Single]) == Some(Seq::<Nested>::empty()),
{
    reveal(account);
    assert(seq![Nested::Single].drop_last() =~= Seq::<Nested>::empty());
}

/// What is left open once complete arrays and maps are closed has none to
/// close.
pub proof fn lemma_settle_settled(nested: Seq<Nested>)
    ensures
        settle(settle(nested)) == settle(nested),
    decreases nested.len(),
{
    if nested.len() > 0 && is_done(nested.last()) {
        lemma_settle_settled(nested.drop_last());
    }
}

/// The nesting after an item has no complete array or map to close.
pub proof fn lemma_account_settled(nested: Seq<Nested>)
    ensures
        account(nested) matches Some(rest) ==> settle(rest) == rest,
{
    reveal(account);
    if nested.len() > 0 {
        let rest = nested.drop_last();
        match nested.last() {
            Nested::Single => {
                lemma_settle_settled(rest);
            },
            Nested::InMap(n) => {
                if n == 0 {
                    lemma_settle_settled(rest);
                } else {
                    lemma_settle_settled(rest.push(Nested::InMap((n - 1) as usize)));
                }
            },
            Nested::InArray(n) => {
                if n == 0 {
                    lemma_settle_settled(rest);
                } else {
                    lemma_settle_settled(rest.push(Nested::InArray((n - 1) as usize)));
                }
            },
        }
    }
}

/// An item in an array or a map that expects `n` items leaves it open for
/// the others, and closes it if it is the last; an item where a single item
/// is expected closes that.
pub proof fn lemma_account_innermost(rest: Seq<Nested>, n: usize)
    requires
        n > 0,
    ensures
        account(rest.push(Nested::InArray(n))) == Some(
            if n > 1 {
                rest.push(Nested::InArray((n - 1) as usize))
            } else {
                settle(rest)
            },
        ),
        account(rest.push(Nested::InMap(n))) == Some(
            if n > 1 {
                rest.push(Nested::InMap((n - 1) as usize))
            } else {
                settle(rest)
            },
        ),
        account(rest.push(Nested::Single)) == Some(settle(rest)),
{
    reveal(account);
    let less = (n - 1) as usize;
    assert(rest.push(Nested::InArray(n)).drop_last() =~= rest);
    assert(rest.push(Nested::InMap(n)).drop_last() =~= rest);
    assert(rest.push(Nested::Single).drop_last() =~= rest);
    assert(rest.push(Nested::InArray(less)).drop_last() =~= rest);
    assert(rest.push(Nested::InMap(less)).drop_last() =~= rest);
}

/// Where in a piece of CBOR a decoder stands, level by level: both how far
/// it is nested, and how many elements of the enclosing item it has seen.
#[derive(Copy, Clone, Debug, PartialEq, Eq, Structural)]
pub enum ContextItem {
    /// We are within a tag.
    Tag,
    /// We are within an array, having seen the given number of elements.
    Array(usize),
    /// We are within a map, having seen the given number of elements.  This
    /// is incremented for both keys and values.
    MapEntry(usize),
    /// We are visiting a nested CBOR block.
    Nested,
}

/// Tracks the context where we are.
#[derive(Debug)]
pub struct Context(pub Vec<ContextItem>);

/// The digits of a number, as text.
pub open spec fn digits(n: nat) -> Seq<u8>
    decreases n,
{
    if n < 10 {
        seq![(48 + n) as u8]
    } else {
        digits(n / 10).push((48 + n % 10) as u8)
    }
}

/// The text that stands for one level of a context: `t` for a tag, `n` for a
/// nested block, `a` or `m` and the number of elements seen for an array or
/// a map.
pub open spec fn item_text(item: ContextItem) -> Seq<u8> {
    match item {
        ContextItem::Tag => seq![0x74u8],
        ContextItem::Nested => seq![0x6eu8],
        ContextItem::Array(n) => seq![0x61u8] + digits(n as nat),
        ContextItem::MapEntry(n) => seq![0x6du8] + digits(n as nat),
    }
}

/// The text that stands for a context: that of its levels, the outermost
/// first.
pub open spec fn context_text(items: Seq<ContextItem>) -> Seq<u8>
    decreases items.len(),
{
    if items.len() == 0 {
        Seq::<u8>::empty()
    } else {
        context_text(items.drop_last()) + item_text(items.last())
    }
}

/// The context after one more element was seen at its innermost level.
pub open spec fn advanced(items: Seq<ContextItem>) -> Seq<ContextItem> {
    if items.len() == 0 {
        items
    } else {
        items.update(
            items.len() - 1,
            match items.last() {
                ContextItem::Array(n) => ContextItem::Array(
                    if n < usize::MAX {
                        (n + 1) as usize
                    } else {
                        n
                    },
                ),
                ContextItem::MapEntry(n) => ContextItem::MapEntry(
                    if n < usize::MAX {
                        (n + 1) as usize
                    } else {
                        n
                    },
                ),
                other => other,
            },
        )
    }
}

/// The digits of a number, as text.
pub fn decimal(n: usize) -> (res: Vec<u8>)
    ensures
        res@ == digits(n as nat),
    decreases n,
{
    if n < 10 {
        let mut res: Vec<u8> = Vec::new();
        res.push(48 + n as u8);
        assert(res@ =~= digits(n as nat));
        res
    } else {
        let mut res: Vec<u8> = decimal(n / 10);
        res.push(48 + (n % 10) as u8);
        res
    }
}

fn spaces(count: usize) -> (res: Vec<u8>)
    ensures
        res@ == Seq::new(count as nat, |i: int| 0x20u8),
{
    let res: Vec<u8> = vec![0x20u8; count];
    assert(res@ =~= Seq::new(count as nat, |i: int| 0x20u8));
    res
}

impl Context {
    /// The levels of the context, the outermost first.
    pub open spec fn view(&self) -> Seq<ContextItem> {
        self.0@
    }

    /// The context of a decoder that has not started.
    pub fn new() -> (res: Context)
        ensures
            res@ == Seq::<ContextItem>::empty(),
    {
        Context(Vec::new())
    }

    /// Return spaces for the left of an indent: one, and three for each
    /// level.
    pub fn left(&self) -> (res: Vec<u8>)
        requires
            1 + 3 * self@.len() <= usize::MAX,
        ensures
            res@ == Seq::new((1 + 3 * self@.len()) as nat, |i: int| 0x20u8),
    {
        spaces(1 + 3 * self.0.len())
    }

    /// Return a padding string, the argument being the number of bytes
    /// printed: the spaces that fill the line up to 55 columns, counting the
    /// levels of the context, and one space at least.
    pub fn pad(&self, printed: usize) -> (res: Vec<u8>)
        ensures
            res@ == Seq::new(
                if self@.len() + printed < 55 {
                    (55 - (self@.len() + printed)) as nat
                } else {
                    1nat
                },
                |i: int| 0x20u8,
            ),
    {
        let len: usize = self.0.len();
        let count: usize = if len < 55 && printed < 55 - len {
            55 - (len + printed)
        } else {
            1
        };
        spaces(count)
    }

    /// Add another nest level to the current indentation.
    pub fn push(&mut self, context: ContextItem)
        ensures
            final(self)@ == old(self)@.push(context),
    {
        self.0.push(context);
    }

    /// Remove a level.  There has to be one.
    pub fn pop(&mut self)
        requires
            old(self)@.len() > 0,
        ensures
            final(self)@ == old(self)@.drop_last(),
    {
        let _ = self.0.pop();
        assert(self.0@ =~= old(self).0@.drop_last());
    }

    /// Advance the current context to advance the nodes we are visiting.
    pub fn succ(&mut self)
        ensures
            final(self)@ == advanced(old(self)@),
    {
        let len: usize = self.0.len();
        if len > 0 {
            let node: ContextItem = self.0[len - 1];
            let new_node: ContextItem = match node {
                ContextItem::Array(n) => ContextItem::Array(
                    if n < usize::MAX {
                        n + 1
                    } else {
                        n
                    },
                ),
                ContextItem::MapEntry(n) => ContextItem::MapEntry(
                    if n < usize::MAX {
                        n + 1
                    } else {
                        n
                    },
                ),
                other => other,
            };
            self.0[len - 1] = new_node;
        }
        assert(self.0@ =~= advanced(old(self).0@));
    }

    /// Encode the context in a simple textual form for string-based
    /// matching.
    pub fn to_text(&self) -> (res: Vec<u8>)
        ensures
            res@ == context_text(self@),
    {
        let mut result: Vec<u8> = Vec::new();
        let mut i: usize = 0;
        assert(self.0@.subrange(0, 0) =~= Seq::<ContextItem>::empty());
        while i < self.0.len()
            invariant
                i <= self.0.len(),
                result@ == context_text(self.0@.subrange(0, i as int)),
            decreases self.0.len() - i,
        {
            let ghost before = result@;
            let item: ContextItem = self.0[i];
            match item {
                ContextItem::Tag => {
                    result.push(0x74);
                },
                ContextItem::Nested => {
                    result.push(0x6e);
                },
                ContextItem::Array(n) => {
                    result.push(0x61);
                    let number: Vec<u8> = decimal(n);
                    crate::bytes::push_all(&mut result, &number);
                },
                ContextItem::MapEntry(n) => {
                    result.push(0x6d);
                    let number: Vec<u8> = decimal(n);
                    crate::bytes::push_all(&mut result, &number);
                },
            }
            proof {
                let next = self.0@.subrange(0, i + 1);
                assert(next.drop_last() =~= self.0@.subrange(0, i as int));
                assert(next.last() == item);
                assert(result@ =~= before + item_text(item));
            }
            i = i + 1;
        }
        assert(self.0@.subrange(0, i as int) =~= self.0@);
        result
    }
}

} // verus!

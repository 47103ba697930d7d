//! Reading the canonical encoding back: a decoder as a specification, and
//! the proof that it undoes the encoder.
//!
//! Nothing in this library decodes at run time; signing only encodes. The
//! decoder below says what a reader recovers, and the round trip shows that
//! the encoding loses nothing but the difference between an integer and its
//! big-endian bytes.

use vstd::prelude::*;
use crate::canonical::{
    be_bytes, bytes_encoding, concat, encodable, encoding, encodings, length_prefix,
    list_encoding, ItemView, MAX_LENGTH,
};

verus! {

/// The number that big-endian `bytes` spell.
pub open spec fn be_value(bytes: Seq<u8>) -> nat
    decreases bytes.len(),
{
    if bytes.len() == 0 {
        0
    } else {
        be_value(bytes.drop_last()) * 256 + bytes.last() as nat
    }
}

/// What the first byte and the length that follows it announce.
pub struct Header {
    /// Whether a list follows, rather than a byte string.
    pub list: bool,
    /// Where the body starts.
    pub start: int,
    /// How many bytes the body has.
    pub len: int,
}

/// The header at the front of `bytes`, if there are enough bytes for one.
pub open spec fn header(bytes: Seq<u8>) -> Option<Header> {
    if bytes.len() == 0 {
        None
    } else {
        let first = bytes[0];
        if first < 0x80 {
            Some(Header { list: false, start: 0, len: 1 })
        } else if first <= 0xb7 {
            Some(Header { list: false, start: 1, len: first - 0x80 })
        } else if first <= 0xbf {
            let k = first - 0xb7;
            if bytes.len() < 1 + k {
                None
            } else {
                Some(Header { list: false, start: 1 + k, len: be_value(bytes.subrange(1, 1 + k)) as int })
            }
        } else if first <= 0xf7 {
            Some(Header { list: true, start: 1, len: first - 0xc0 })
        } else {
            let k = first - 0xf7;
            if bytes.len() < 1 + k {
                None
            } else {
                Some(Header { list: true, start: 1 + k, len: be_value(bytes.subrange(1, 1 + k)) as int })
            }
        }
    }
}

/// The item at the front of `bytes` and the number of bytes it takes, if
/// `bytes` starts with an item.
pub open spec fn decoded(bytes: Seq<u8>) -> Option<(ItemView, int)>
    decreases bytes.len(), 0nat,
{
    match header(bytes) {
        None => None,
        Some(h) => {
            if h.len < 0 || h.start + h.len > bytes.len() {
                None
            } else if h.list {
                if h.start < 1 {
                    None
                } else {
                    match decoded_items(bytes.subrange(h.start, h.start + h.len)) {
                        None => None,
                        Some(items) => Some((ItemView::List(items), h.start + h.len)),
                    }
                }
            } else {
                Some((ItemView::Bytes(bytes.subrange(h.start, h.start + h.len)), h.start + h.len))
            }
        },
    }
}

/// The items that `bytes` hold one after another, if they hold nothing else.
pub open spec fn decoded_items(bytes: Seq<u8>) -> Option<Seq<ItemView>>
    decreases bytes.len(), 1nat,
{
    if bytes.len() == 0 {
        Some(Seq::empty())
    } else {
        match decoded(bytes) {
            None => None,
            Some((item, used)) => {
                if used < 1 || used > bytes.len() {
                    None
                } else {
                    match decoded_items(bytes.subrange(used, bytes.len() as int)) {
                        None => None,
                        Some(rest) => Some(seq![item] + rest),
                    }
                }
            },
        }
    }
}

/// An item as a reader sees it: every integer as its big-endian bytes.
pub open spec fn normal(item: ItemView) -> ItemView
    decreases item,
{
    match item {
        ItemView::Bytes(data) => ItemView::Bytes(data),
        ItemView::Uint(n) => ItemView::Bytes(be_bytes(n)),
        ItemView::List(items) => ItemView::List(normals(items)),
    }
}

/// Each of `items` as a reader sees it.
pub open spec fn normals(items: Seq<ItemView>) -> Seq<ItemView>
    decreases items,
{
    Seq::new(
        items.len(),
        |i: int|
            if 0 <= i < items.len() {
                normal(items[i])
            } else {
                ItemView::Bytes(Seq::empty())
            },
    )
}

/// Reading the big-endian bytes of a number gives the number back.
pub proof fn lemma_be_value(n: nat)
    ensures
        be_value(be_bytes(n)) == n,
    decreases n,
{
    if n > 0 {
        lemma_be_value(n / 256);
        assert(be_bytes(n).drop_last() =~= be_bytes(n / 256));
    }
}

/// A length that a prefix can carry takes one to four bytes once it is
/// beyond 55.
pub proof fn lemma_be_bytes_len(n: nat)
    requires
        55 < n <= MAX_LENGTH,
    ensures
        1 <= be_bytes(n).len() <= 4,
{
    reveal_with_fuel(be_bytes, 6);
}

/// The header of a length prefix announces what the prefix was made for.
pub proof fn lemma_header_of_prefix(base: u8, len: nat, rest: Seq<u8>)
    requires
        base == 0x80 || base == 0xc0,
        len <= MAX_LENGTH,
        base == 0x80 && len == 1 ==> rest.len() > 0 && rest[0] >= 0x80,
    ensures
        header(length_prefix(base, len) + rest) == Some(
            Header {
                list: base == 0xc0,
                start: length_prefix(base, len).len() as int,
                len: len as int,
            },
        ),
        1 <= length_prefix(base, len).len() <= 5,
{
    let prefix = length_prefix(base, len);
    let bytes = prefix + rest;
    if len <= 55 {
        assert(bytes[0] == (base + len) as u8);
    } else {
        lemma_be_bytes_len(len);
        lemma_be_value(len);
        let k = be_bytes(len).len();
        assert(bytes[0] == (base + 55 + k) as u8);
        assert(bytes.subrange(1, 1 + k as int) =~= be_bytes(len));
    }
}

/// A byte string is read back from the front of whatever follows it.
pub proof fn lemma_decoded_bytes(data: Seq<u8>, tail: Seq<u8>)
    requires
        data.len() <= MAX_LENGTH,
    ensures
        decoded(bytes_encoding(data) + tail) == Some(
            (ItemView::Bytes(data), bytes_encoding(data).len() as int),
        ),
        bytes_encoding(data).len() >= 1,
{
    let bytes = bytes_encoding(data) + tail;
    if data.len() == 1 && data[0] < 0x80 {
        assert(bytes[0] == data[0]);
        assert(bytes.subrange(0, 1) =~= data);
    } else {
        let prefix = length_prefix(0x80, data.len());
        assert(bytes =~= prefix + (data + tail));
        if data.len() == 1 {
            assert((data + tail)[0] == data[0]);
        }
        lemma_header_of_prefix(0x80, data.len(), data + tail);
        assert(bytes.subrange(prefix.len() as int, (prefix.len() + data.len()) as int) =~= data);
    }
}

/// The first part stands at the front of the concatenation.
pub proof fn lemma_concat_front(parts: Seq<Seq<u8>>)
    requires
        parts.len() > 0,
    ensures
        concat(parts) == parts[0] + concat(parts.drop_first()),
    decreases parts.len(),
{
    if parts.len() == 1 {
        assert(parts.drop_last() =~= Seq::<Seq<u8>>::empty());
        assert(parts.drop_first() =~= Seq::<Seq<u8>>::empty());
        assert(concat(parts) =~= parts[0] + concat(parts.drop_first()));
    } else {
        lemma_concat_front(parts.drop_last());
        assert(parts.drop_last().drop_first() =~= parts.drop_first().drop_last());
        assert(parts.drop_first().last() == parts.last());
        assert(concat(parts) =~= parts[0] + concat(parts.drop_first()));
    }
}

/// What the encoder writes is read back: decoding the encoding of an item,
/// whatever bytes follow it, gives the item as a reader sees it, and the
/// number of bytes that the encoding takes.
pub proof fn lemma_round_trip(item: ItemView, tail: Seq<u8>)
    requires
        encodable(item),
    ensures
        decoded(encoding(item) + tail) == Some((normal(item), encoding(item).len() as int)),
        encoding(item).len() >= 1,
    decreases item, 0nat,
{
    match item {
        ItemView::Bytes(data) => {
            lemma_decoded_bytes(data, tail);
        },
        ItemView::Uint(n) => {
            assert(be_bytes(n).len() <= 8) by {
                reveal_with_fuel(be_bytes, 10);
            }
            lemma_decoded_bytes(be_bytes(n), tail);
        },
        ItemView::List(items) => {
            let payload = concat(encodings(items));
            let prefix = length_prefix(0xc0, payload.len());
            let bytes = encoding(item) + tail;
            assert(bytes =~= prefix + (payload + tail));
            lemma_header_of_prefix(0xc0, payload.len(), payload + tail);
            assert(bytes.subrange(prefix.len() as int, (prefix.len() + payload.len()) as int)
                =~= payload);
            lemma_round_trip_items(items, 0);
            assert(encodings(items).skip(0) =~= encodings(items));
            assert(normals(items).skip(0) =~= normals(items));
        },
    }
}

/// The items of a list are read back one after another, from any of them on.
pub proof fn lemma_round_trip_items(items: Seq<ItemView>, from: int)
    requires
        0 <= from <= items.len(),
        forall|i: int| 0 <= i < items.len() ==> encodable(#[trigger] items[i]),
    ensures
        decoded_items(concat(encodings(items).skip(from))) == Some(normals(items).skip(from)),
    decreases items, items.len() - from,
{
    let parts = encodings(items).skip(from);
    if from == items.len() {
        assert(parts =~= Seq::<Seq<u8>>::empty());
        assert(normals(items).skip(from) =~= Seq::<ItemView>::empty());
    } else {
        let rest = concat(encodings(items).skip(from + 1));
        lemma_concat_front(parts);
        assert(parts.drop_first() =~= encodings(items).skip(from + 1));
        assert(parts[0] == encoding(items[from]));
        lemma_round_trip(items[from], rest);
        lemma_round_trip_items(items, from + 1);
        let bytes = concat(parts);
        let used = encoding(items[from]).len() as int;
        assert(bytes.subrange(used, bytes.len() as int) =~= rest);
        assert(seq![normal(items[from])] + normals(items).skip(from + 1) =~= normals(items).skip(
            from,
        ));
    }
}

/// Decoding undoes encoding: the encoding of an item, read from its first
/// byte to its last, gives the item back as a reader sees it.
pub proof fn lemma_decoding_inverts_encoding(item: ItemView)
    requires
        encodable(item),
    ensures
        decoded(encoding(item)) == Some((normal(item), encoding(item).len() as int)),
{
    lemma_round_trip(item, Seq::empty());
    assert(encoding(item) + Seq::<u8>::empty() =~= encoding(item));
}

/// No two items share an encoding, unless a reader sees them as the same
/// item.
pub proof fn lemma_encoding_is_injective(first: ItemView, second: ItemView)
    requires
        encodable(first),
        encodable(second),
        encoding(first) == encoding(second),
    ensures
        normal(first) == normal(second),
{
    lemma_decoding_inverts_encoding(first);
    lemma_decoding_inverts_encoding(second);
}

} // verus!

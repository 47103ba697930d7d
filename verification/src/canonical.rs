//! The canonical, length-prefixed encoding of nested items.

use vstd::prelude::*;
use crate::error::Error;

verus! {

/// The longest payload whose length a prefix can carry.
pub const MAX_LENGTH: usize = 0xffff_ffff;

/// The big-endian digits of `n` in base 256, without leading zero bytes.
pub open spec fn be_bytes(n: nat) -> Seq<u8>
    decreases n,
{
    if n == 0 {
        Seq::empty()
    } else {
        be_bytes(n / 256).push((n % 256) as u8)
    }
}

/// The prefix that announces a payload of `len` bytes: one byte `base + len`
/// for up to 55 bytes; beyond that the byte `base + 55 + k` followed by the
/// `k` big-endian bytes of `len`.
pub open spec fn length_prefix(base: u8, len: nat) -> Seq<u8> {
    if len <= 55 {
        seq![(base + len) as u8]
    } else {
        seq![(base + 55 + be_bytes(len).len()) as u8] + be_bytes(len)
    }
}

/// The encoding of a byte string: a single byte below `0x80` stands for
/// itself, anything else follows its length prefix.
pub open spec fn bytes_encoding(data: Seq<u8>) -> Seq<u8> {
    if data.len() == 1 && data[0] < 0x80 {
        data
    } else {
        length_prefix(0x80, data.len()) + data
    }
}

/// The encoding of an unsigned integer: that of its shortest big-endian form.
pub open spec fn uint_encoding(n: nat) -> Seq<u8> {
    bytes_encoding(be_bytes(n))
}

/// The encoding of a list whose items, already encoded and concatenated, are
/// `payload`. The prefix carries the length of the payload in bytes; a reader
/// finds the items, and so their number, by reading one after another.
pub open spec fn list_encoding(payload: Seq<u8>) -> Seq<u8> {
    length_prefix(0xc0, payload.len()) + payload
}

/// What an item is, as a mathematical value.
pub enum ItemView {
    Bytes(Seq<u8>),
    Uint(nat),
    List(Seq<ItemView>),
}

/// The items of `parts`, one after another.
pub open spec fn concat(parts: Seq<Seq<u8>>) -> Seq<u8>
    decreases parts.len(),
{
    if parts.len() == 0 {
        Seq::empty()
    } else {
        concat(parts.drop_last()) + parts.last()
    }
}

/// The canonical encoding of an item.
pub open spec fn encoding(item: ItemView) -> Seq<u8>
    decreases item,
{
    match item {
        ItemView::Bytes(data) => bytes_encoding(data),
        ItemView::Uint(n) => uint_encoding(n),
        ItemView::List(items) => list_encoding(concat(encodings(items))),
    }
}

/// The encodings of `items`, in order.
pub open spec fn encodings(items: Seq<ItemView>) -> Seq<Seq<u8>>
    decreases items,
{
    Seq::new(
        items.len(),
        |i: int|
            if 0 <= i < items.len() {
                encoding(items[i])
            } else {
                Seq::empty()
            },
    )
}

/// Whether `item` can be encoded: every length inside it can be carried by a
/// length prefix, and every integer is a 64-bit number.
pub open spec fn encodable(item: ItemView) -> bool
    decreases item,
{
    match item {
        ItemView::Bytes(data) => data.len() <= MAX_LENGTH,
        ItemView::Uint(n) => n <= u64::MAX,
        ItemView::List(items) => {
            &&& forall|i: int| 0 <= i < items.len() ==> encodable(#[trigger] items[i])
            &&& concat(encodings(items)).len() <= MAX_LENGTH
        },
    }
}

/// An item of the encoder: a byte string, an unsigned integer, or a list of
/// items.
#[derive(Debug, PartialEq, Eq)]
pub enum Item {
    Bytes(Vec<u8>),
    Uint(u64),
    List(Vec<Item>),
}

impl View for Item {
    type V = ItemView;

    open spec fn view(&self) -> ItemView
        decreases self,
    {
        match self {
            Item::Bytes(data) => ItemView::Bytes(data@),
            Item::Uint(n) => ItemView::Uint(*n as nat),
            Item::List(items) => ItemView::List(item_views(*items)),
        }
    }
}

/// The views of `items`, in order.
pub open spec fn item_views(items: Vec<Item>) -> Seq<ItemView>
    decreases items,
{
    Seq::new(
        items.len() as nat,
        |i: int|
            if 0 <= i < items.len() {
                items[i]@
            } else {
                ItemView::Uint(0)
            },
    )
}

/// Calls `rlp::encode` on a byte slice. The contract says that the result is
/// the byte string's encoding: the byte itself for a single byte below
/// `0x80`, else the length prefix over `0x80` and the bytes. The outside
/// encoder writes lengths as 32-bit numbers, so longer input is left out.
#[verifier::external_body]
fn rlp_bytes(data: &[u8]) -> (out: Vec<u8>)
    requires
        data@.len() <= MAX_LENGTH,
    ensures
        out@ == bytes_encoding(data@),
{
    rlp::encode(&data).to_vec()
}

/// Calls `rlp::encode` on a `u64`. The contract says that the result is the
/// encoding, as a byte string, of the number's big-endian bytes without
/// leading zero bytes.
#[verifier::external_body]
fn rlp_uint(value: u64) -> (out: Vec<u8>)
    ensures
        out@ == uint_encoding(value as nat),
{
    rlp::encode(&value).to_vec()
}

/// Opens an unbounded list on a fresh `rlp::RlpStream`, appends `payload` to
/// it with `append_raw` as `count` items that are encoded already, and closes
/// the list. The contract says that the result is the list's length prefix
/// over `0xc0`, followed by the payload unchanged. The outside encoder writes
/// lengths as 32-bit numbers, so a longer payload is left out.
#[verifier::external_body]
fn rlp_list(payload: &[u8], count: usize) -> (out: Vec<u8>)
    requires
        payload@.len() <= MAX_LENGTH,
    ensures
        out@ == list_encoding(payload@),
{
    let mut stream = rlp::RlpStream::new();
    stream.begin_unbounded_list();
    stream.append_raw(payload, count);
    stream.finalize_unbounded_list();
    stream.out().to_vec()
}

/// Encodes a byte string, unless it is too long for a length prefix.
pub fn encode_bytes(data: &[u8]) -> (out: Result<Vec<u8>, Error>)
    ensures
        data@.len() <= MAX_LENGTH ==> out is Ok && out.unwrap()@ == bytes_encoding(data@),
        data@.len() > MAX_LENGTH ==> out == Err::<Vec<u8>, Error>(Error::EncodingOverflow),
{
    if data.len() <= MAX_LENGTH {
        Ok(rlp_bytes(data))
    } else {
        Err(Error::EncodingOverflow)
    }
}

/// Encodes an unsigned integer.
pub fn encode_uint(value: u64) -> (out: Vec<u8>)
    ensures
        out@ == uint_encoding(value as nat),
{
    rlp_uint(value)
}

/// The views of the byte strings in `parts`.
pub open spec fn views(parts: Seq<Vec<u8>>) -> Seq<Seq<u8>> {
    Seq::new(parts.len(), |i: int| parts[i]@)
}

/// Encodes the list whose items, each encoded already, are `parts`, unless
/// together they are too long for a length prefix.
pub fn encode_list(parts: &Vec<Vec<u8>>) -> (out: Result<Vec<u8>, Error>)
    ensures
        concat(views(parts@)).len() <= MAX_LENGTH ==> out is Ok && out.unwrap()@ == list_encoding(
            concat(views(parts@)),
        ),
        concat(views(parts@)).len() > MAX_LENGTH ==> out == Err::<Vec<u8>, Error>(
            Error::EncodingOverflow,
        ),
{
    let mut payload: Vec<u8> = Vec::new();
    let mut i: usize = 0;
    while i < parts.len()
        invariant
            i <= parts.len(),
            payload@ == concat(views(parts@).take(i as int)),
            payload@.len() <= MAX_LENGTH,
        decreases parts.len() - i,
    {
        let part = &parts[i];
        proof {
            lemma_concat_take(views(parts@), i as int);
            lemma_concat_monotone(views(parts@), i as int + 1);
        }
        if part.len() > MAX_LENGTH - payload.len() {
            return Err(Error::EncodingOverflow);
        }
        payload.extend_from_slice(part.as_slice());
        assert(payload@ =~= concat(views(parts@).take(i as int)) + part@);
        i = i + 1;
    }
    assert(views(parts@).take(parts@.len() as int) =~= views(parts@));
    Ok(rlp_list(payload.as_slice(), parts.len()))
}

/// Taking one more part appends that part.
pub proof fn lemma_concat_take(parts: Seq<Seq<u8>>, i: int)
    requires
        0 <= i < parts.len(),
    ensures
        concat(parts.take(i + 1)) == concat(parts.take(i)) + parts[i],
{
    assert(parts.take(i + 1).drop_last() =~= parts.take(i));
}

/// A prefix of the parts is no longer than all of them.
pub proof fn lemma_concat_monotone(parts: Seq<Seq<u8>>, i: int)
    requires
        0 <= i <= parts.len(),
    ensures
        concat(parts.take(i)).len() <= concat(parts).len(),
    decreases parts.len() - i,
{
    if i == parts.len() {
        assert(parts.take(i) =~= parts);
    } else {
        lemma_concat_take(parts, i);
        lemma_concat_monotone(parts, i + 1);
    }
}

/// Encodes an item, unless a length inside it is too long for its prefix.
pub fn encode(item: &Item) -> (out: Result<Vec<u8>, Error>)
    ensures
        encodable(item@) ==> out is Ok && out.unwrap()@ == encoding(item@),
        !encodable(item@) ==> out == Err::<Vec<u8>, Error>(Error::EncodingOverflow),
    decreases item,
{
    match item {
        Item::Bytes(data) => encode_bytes(data.as_slice()),
        Item::Uint(n) => Ok(encode_uint(*n)),
        Item::List(items) => {
            let ghost children = item_views(*items);
            let mut parts: Vec<Vec<u8>> = Vec::new();
            let mut i: usize = 0;
            while i < items.len()
                invariant
                    i <= items.len(),
                    item == Item::List(*items),
                    children == item_views(*items),
                    parts@.len() == i,
                    forall|k: int| 0 <= k < i ==> encodable(#[trigger] children[k]),
                    forall|k: int| 0 <= k < i ==> (#[trigger] parts[k])@ == encoding(children[k]),
                decreases items.len() - i,
            {
                proof {
                    vstd::std_specs::vec::axiom_vec_index_decreases(*items, i as int);
                    assert(item->List_0 == *items);
                }
                match encode(&items[i]) {
                    Ok(part) => {
                        parts.push(part);
                    },
                    Err(e) => {
                        assert(!encodable(children[i as int]));
                        return Err(e);
                    },
                }
                i = i + 1;
            }
            assert(views(parts@) =~= encodings(children));
            encode_list(&parts)
        },
    }
}

} // verus!

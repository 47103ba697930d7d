//! Fixed-width fields: zero bytes in front of a value, never a truncation.

use vstd::prelude::*;
use crate::error::Error;

verus! {

/// `n` zero bytes.
pub open spec fn zeros(n: nat) -> Seq<u8> {
    Seq::new(n, |i: int| 0u8)
}

/// `bytes` behind as many zero bytes as it takes to reach `width`.
///
/// For a value longer than `width` this is the value itself: nothing is ever
/// cut off.
pub open spec fn padded(bytes: Seq<u8>, width: nat) -> Seq<u8> {
    if bytes.len() <= width {
        zeros((width - bytes.len()) as nat) + bytes
    } else {
        bytes
    }
}

/// Left-pads `bytes` with zero bytes to exactly `width` bytes.
///
/// A value that is already longer than `width` is a mistake of the caller and
/// is ruled out by the precondition; [`try_pad`] tests it at run time.
pub fn pad(bytes: &[u8], width: usize) -> (out: Vec<u8>)
    requires
        bytes@.len() <= width,
    ensures
        out@ == padded(bytes@, width as nat),
        out@.len() == width,
        out@.subrange(width - bytes@.len(), width as int) == bytes@,
        forall|i: int| 0 <= i < width - bytes@.len() ==> out@[i] == 0u8,
{
    let fill: usize = width - bytes.len();
    let mut out: Vec<u8> = Vec::new();
    let mut i: usize = 0;
    while i < fill
        invariant
            i <= fill,
            out@ == zeros(i as nat),
        decreases fill - i,
    {
        out.push(0u8);
        i = i + 1;
        assert(out@ =~= zeros(i as nat));
    }
    let mut j: usize = 0;
    while j < bytes.len()
        invariant
            j <= bytes@.len(),
            fill + bytes@.len() == width,
            out@ == zeros(fill as nat) + bytes@.subrange(0, j as int),
        decreases bytes@.len() - j,
    {
        out.push(bytes[j]);
        j = j + 1;
        assert(out@ =~= zeros(fill as nat) + bytes@.subrange(0, j as int));
    }
    assert(bytes@.subrange(0, bytes@.len() as int) =~= bytes@);
    assert(out@.subrange(width - bytes@.len(), width as int) =~= bytes@);
    out
}

/// Left-pads `bytes` to `width` bytes, or reports that it does not fit.
pub fn try_pad(bytes: &[u8], width: usize) -> (out: Result<Vec<u8>, Error>)
    ensures
        bytes@.len() <= width ==> out == Ok::<Vec<u8>, Error>(out.unwrap()) && out.unwrap()@ == padded(
            bytes@,
            width as nat,
        ),
        bytes@.len() > width ==> out == Err::<Vec<u8>, Error>(Error::EncodingOverflow),
{
    if bytes.len() <= width {
        Ok(pad(bytes, width))
    } else {
        Err(Error::EncodingOverflow)
    }
}

/// `bytes` followed by as many zero bytes as it takes to reach `width`; the
/// value itself where it is longer than `width`.
pub open spec fn padded_right(bytes: Seq<u8>, width: nat) -> Seq<u8> {
    if bytes.len() <= width {
        bytes + zeros((width - bytes.len()) as nat)
    } else {
        bytes
    }
}

/// Right-pads `bytes` with zero bytes to exactly `width` bytes: the form of a
/// tag that starts a signed message.
pub fn pad_right(bytes: &[u8], width: usize) -> (out: Vec<u8>)
    requires
        bytes@.len() <= width,
    ensures
        out@ == padded_right(bytes@, width as nat),
        out@.len() == width,
        out@.subrange(0, bytes@.len() as int) == bytes@,
        forall|i: int| bytes@.len() <= i < width ==> out@[i] == 0u8,
{
    let mut out: Vec<u8> = Vec::new();
    let mut j: usize = 0;
    while j < bytes.len()
        invariant
            j <= bytes@.len(),
            out@ == bytes@.subrange(0, j as int),
        decreases bytes@.len() - j,
    {
        out.push(bytes[j]);
        j = j + 1;
        assert(out@ =~= bytes@.subrange(0, j as int));
    }
    assert(bytes@.subrange(0, bytes@.len() as int) =~= bytes@);
    let fill: usize = width - bytes.len();
    let mut i: usize = 0;
    while i < fill
        invariant
            i <= fill,
            fill + bytes@.len() == width,
            out@ == bytes@ + zeros(i as nat),
        decreases fill - i,
    {
        out.push(0u8);
        i = i + 1;
        assert(out@ =~= bytes@ + zeros(i as nat));
    }
    assert(out@.subrange(0, bytes@.len() as int) =~= bytes@);
    out
}

} // verus!

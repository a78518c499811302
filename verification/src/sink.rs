//! The steps of writing that touch the bytes: laying bytes over a buffer,
//! filling with zeros, and putting down a constant, an integer or a run of
//! bytes.

use crate::codec::{encode_int, int_bytes, representable, MAX_WIDTH};
use crate::endian::ByteOrder;
use crate::error::{Error, ErrorModel, IoFailure, Violation};
use crate::schema::Parser;
use crate::stream::{io_failure, pad_to, padded, violated};
use crate::value::{lemma_view_items, models, Value, ValueModel};
use vstd::prelude::*;

verus! {

/// The bytes and the position after a step that wrote, or its failure.
pub type Written = Result<(Seq<u8>, nat), ErrorModel>;

/// The model of what an executable step wrote.
pub open spec fn written(r: Result<usize, Error>, buf: Vec<u8>) -> Written {
    match r {
        Ok(p) => Ok((buf@, p as nat)),
        Err(e) => Err(e@),
    }
}

/// `n` zero bytes.
pub open spec fn zeros(n: nat) -> Seq<u8> {
    Seq::new(n, |i: int| 0u8)
}

/// `buf` with `bytes` laid over it from `pos` on. Bytes of `buf` that
/// `bytes` does not reach stay; a gap between the end of `buf` and `pos` is
/// zeros.
pub open spec fn overlaid(buf: Seq<u8>, pos: nat, bytes: Seq<u8>) -> Seq<u8> {
    Seq::new(
        if buf.len() >= pos + bytes.len() {
            buf.len()
        } else {
            pos + bytes.len()
        },
        |i: int|
            if pos <= i < pos + bytes.len() {
                bytes[i - pos]
            } else if i < buf.len() {
                buf[i]
            } else {
                0u8
            },
    )
}

/// Writing `bytes` at `pos`: the bytes are laid over the buffer, and the
/// position moves past them.
pub open spec fn put_model(buf: Seq<u8>, pos: nat, bytes: Seq<u8>) -> Written {
    if pos + bytes.len() > usize::MAX {
        Err(io_failure(IoFailure::InvalidSeek))
    } else {
        Ok((overlaid(buf, pos, bytes), pos + bytes.len()))
    }
}

/// Writing the padding that a reader would skip: `pad` zero bytes, then
/// zeros up to the next multiple of `align`.
pub open spec fn pad_write_model(buf: Seq<u8>, pos: nat, pad: nat, align: nat) -> Written {
    match padded(pos, pad, align) {
        Err(e) => Err(e),
        Ok(p) => put_model(buf, pos, zeros((p - pos) as nat)),
    }
}

/// Writing a constant, where one is declared.
pub open spec fn magic_write_model(buf: Seq<u8>, pos: nat, magic: Option<Vec<u8>>) -> Written {
    match magic {
        Some(bytes) => put_model(buf, pos, bytes@),
        None => Ok((buf, pos)),
    }
}

/// Writing an integer of `width` bytes.
pub open spec fn int_write_model(
    buf: Seq<u8>,
    pos: nat,
    v: ValueModel,
    width: nat,
    signed: bool,
    order: ByteOrder,
) -> Written {
    if width == 0 || width > MAX_WIDTH {
        Err(violated(Violation::BadWidth))
    } else {
        match v {
            ValueModel::Int(x) => if representable(x, width, signed) {
                put_model(buf, pos, int_bytes(x, width, order))
            } else {
                Err(violated(Violation::Overflow))
            },
            _ => Err(violated(Violation::ShapeMismatch)),
        }
    }
}

/// Whether every value is an integer that is a byte.
pub open spec fn all_bytes(items: Seq<ValueModel>) -> bool {
    forall|k: int|
        0 <= k < items.len() ==> (#[trigger] items[k]) is Int && 0 <= items[k]->Int_0 < 256
}

/// Values that are bytes, as bytes.
pub open spec fn as_bytes(items: Seq<ValueModel>) -> Seq<u8> {
    Seq::new(items.len(), |k: int| items[k]->Int_0 as u8)
}

/// What a replacing parser's counterpart writes for a value: the bytes of a
/// list of bytes, and for a terminated run a zero after them, which no byte
/// of the run may be.
pub open spec fn parser_write_model(parser: Parser, v: ValueModel, buf: Seq<u8>, pos: nat)
    -> Written {
    match v {
        ValueModel::List(items) => if !all_bytes(items) {
            Err(violated(Violation::ShapeMismatch))
        } else {
            match parser {
                Parser::Remaining => put_model(buf, pos, as_bytes(items)),
                Parser::UntilZero => if as_bytes(items).contains(0u8) {
                    Err(violated(Violation::ShapeMismatch))
                } else {
                    put_model(buf, pos, as_bytes(items).push(0u8))
                },
            }
        },
        _ => Err(violated(Violation::ShapeMismatch)),
    }
}

/// Lays `bytes` over the buffer from `pos` on.
pub fn put(buf: &mut Vec<u8>, pos: usize, bytes: &Vec<u8>) -> (r: Result<usize, Error>)
    ensures
        written(r, *final(buf)) == put_model(old(buf)@, pos as nat, bytes@),
{
    let n = bytes.len();
    if n > usize::MAX - pos {
        return Err(Error::io(IoFailure::InvalidSeek));
    }
    let ghost before = buf@;
    while buf.len() < pos
        invariant
            before.len() <= buf@.len(),
            buf@.len() <= pos || buf@.len() == before.len(),
            forall|i: int| 0 <= i < before.len() ==> buf@[i] == before[i],
            forall|i: int| before.len() <= i < buf@.len() ==> buf@[i] == 0,
        decreases pos - buf@.len(),
    {
        buf.push(0);
    }
    let ghost filled = buf@.len();
    let mut k: usize = 0;
    while k < n
        invariant
            k <= n == bytes@.len(),
            pos + n <= usize::MAX,
            pos <= filled,
            before.len() <= filled,
            filled == pos || filled == before.len(),
            buf@.len() == if filled >= pos + k {
                filled
            } else {
                (pos + k) as nat
            },
            forall|i: int|
                0 <= i < buf@.len() ==> buf@[i] == if pos <= i < pos + k {
                    bytes@[i - pos]
                } else if i < before.len() {
                    before[i]
                } else {
                    0u8
                },
        decreases n - k,
    {
        if pos + k < buf.len() {
            buf.set(pos + k, bytes[k]);
        } else {
            buf.push(bytes[k]);
        }
        k += 1;
    }
    assert(buf@ =~= overlaid(before, pos as nat, bytes@));
    Ok(pos + n)
}

/// A run of `n` zero bytes.
pub fn zero_bytes(n: usize) -> (r: Vec<u8>)
    ensures
        r@ == zeros(n as nat),
{
    let mut out: Vec<u8> = Vec::new();
    while out.len() < n
        invariant
            out@.len() <= n,
            forall|i: int| 0 <= i < out@.len() ==> out@[i] == 0,
        decreases n - out@.len(),
    {
        out.push(0);
    }
    out
}

/// Writes the padding that a reader would skip.
pub fn pad_write(buf: &mut Vec<u8>, pos: usize, pad: usize, align: usize) -> (r: Result<
    usize,
    Error,
>)
    ensures
        written(r, *final(buf)) == pad_write_model(
            old(buf)@,
            pos as nat,
            pad as nat,
            align as nat,
        ),
{
    match pad_to(pos, pad, align) {
        Err(e) => Err(e),
        Ok(p) => {
            let fill = zero_bytes(p - pos);
            put(buf, pos, &fill)
        },
    }
}

/// Writes a constant, where one is declared.
pub fn magic_write(buf: &mut Vec<u8>, pos: usize, magic: &Option<Vec<u8>>) -> (r: Result<
    usize,
    Error,
>)
    ensures
        written(r, *final(buf)) == magic_write_model(old(buf)@, pos as nat, *magic),
{
    match magic {
        Some(bytes) => put(buf, pos, bytes),
        None => Ok(pos),
    }
}

/// Writes an integer of `width` bytes.
pub fn int_write(
    buf: &mut Vec<u8>,
    pos: usize,
    v: &Value,
    width: usize,
    signed: bool,
    order: ByteOrder,
) -> (r: Result<usize, Error>)
    ensures
        written(r, *final(buf)) == int_write_model(
            old(buf)@,
            pos as nat,
            v@,
            width as nat,
            signed,
            order,
        ),
{
    if width == 0 || width > MAX_WIDTH {
        return Err(Error::violation(Violation::BadWidth));
    }
    match v {
        Value::Int(x) => match encode_int(*x, width, signed, order) {
            Ok(bytes) => put(buf, pos, &bytes),
            Err(x) => Err(Error::violation(x)),
        },
        _ => Err(Error::violation(Violation::ShapeMismatch)),
    }
}

/// The bytes of a list of values that are bytes; nothing where one of them
/// is not a byte.
pub fn bytes_of(items: &Vec<Value>) -> (r: Option<Vec<u8>>)
    ensures
        match r {
            Some(bytes) => all_bytes(models(items@)) && bytes@ == as_bytes(models(items@)),
            None => !all_bytes(models(items@)),
        },
{
    let mut out: Vec<u8> = Vec::new();
    let mut k: usize = 0;
    while k < items.len()
        invariant
            k <= items.len(),
            out@.len() == k,
            forall|j: int|
                0 <= j < k ==> (#[trigger] models(items@)[j]) is Int && 0 <= models(
                    items@,
                )[j]->Int_0 < 256 && out@[j] == models(items@)[j]->Int_0 as u8,
        decreases items.len() - k,
    {
        match &items[k] {
            Value::Int(x) => {
                if 0 <= *x && *x < 256 {
                    out.push(*x as u8);
                } else {
                    assert(!(0 <= models(items@)[k as int]->Int_0 < 256));
                    return None;
                }
            },
            _ => {
                return None;
            },
        }
        k += 1;
    }
    Some(out)
}

/// Whether one of the bytes is zero.
pub fn has_zero(bytes: &Vec<u8>) -> (b: bool)
    ensures
        b == bytes@.contains(0u8),
{
    let mut k: usize = 0;
    while k < bytes.len()
        invariant
            k <= bytes.len(),
            forall|j: int| 0 <= j < k ==> bytes@[j] != 0,
        decreases bytes.len() - k,
    {
        if bytes[k] == 0 {
            return true;
        }
        k += 1;
    }
    false
}

/// Writes a value as the counterpart of a replacing parser.
pub fn parser_write(parser: Parser, v: &Value, buf: &mut Vec<u8>, pos: usize) -> (r: Result<
    usize,
    Error,
>)
    ensures
        written(r, *final(buf)) == parser_write_model(parser, v@, old(buf)@, pos as nat),
{
    match v {
        Value::List(items) => {
            proof {
                lemma_view_items(0, *items);
            }
            match bytes_of(items) {
                None => Err(Error::violation(Violation::ShapeMismatch)),
                Some(bytes) => match parser {
                    Parser::Remaining => put(buf, pos, &bytes),
                    Parser::UntilZero => {
                        if has_zero(&bytes) {
                            Err(Error::violation(Violation::ShapeMismatch))
                        } else {
                            let mut bytes = bytes;
                            bytes.push(0);
                            put(buf, pos, &bytes)
                        }
                    },
                },
            }
        },
        _ => Err(Error::violation(Violation::ShapeMismatch)),
    }
}

} // verus!

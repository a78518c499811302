//! The steps of reading that touch the bytes: skipping, aligning, matching a
//! constant, and taking an integer or a run of bytes.

use crate::codec::{decode_int, int_value, MAX_WIDTH};
use crate::endian::ByteOrder;
use crate::error::{Error, ErrorModel, IoFailure, Violation};
use crate::schema::Parser;
use crate::value::{lemma_view_items, models, Value, ValueModel};
use vstd::prelude::*;

verus! {

/// A position in the stream, or the failure to reach one.
pub type Reached = Result<nat, ErrorModel>;

/// A value and the position after it, or the failure to read one.
pub type Parsed = Result<(ValueModel, nat), ErrorModel>;

/// The model of a position that an executable step reached.
pub open spec fn reached(r: Result<usize, Error>) -> Reached {
    match r {
        Ok(p) => Ok(p as nat),
        Err(e) => Err(e@),
    }
}

/// The model of what an executable step parsed.
pub open spec fn parsed(r: Result<(Value, usize), Error>) -> Parsed {
    match r {
        Ok((v, p)) => Ok((v@, p as nat)),
        Err(e) => Err(e@),
    }
}

/// A stream failure, as a model.
pub open spec fn io_failure(underlying: IoFailure) -> ErrorModel {
    ErrorModel::Io { underlying }
}

/// A contract violation, as a model.
pub open spec fn violated(description: Violation) -> ErrorModel {
    ErrorModel::ContractViolation { description }
}

/// The position `n` bytes past `pos`, where the stream can hold it.
pub open spec fn advanced(pos: nat, n: nat) -> Reached {
    if pos + n > usize::MAX {
        Err(io_failure(IoFailure::InvalidSeek))
    } else {
        Ok(pos + n)
    }
}

/// The first multiple of `align` at or after `pos`. An alignment of zero or
/// one asks for nothing.
pub open spec fn aligned(pos: nat, align: nat) -> Reached {
    if align <= 1 || pos % align == 0 {
        Ok(pos)
    } else {
        advanced(pos, (align - pos % align) as nat)
    }
}

/// The position after skipping `pad` bytes and then aligning to `align`.
pub open spec fn padded(pos: nat, pad: nat, align: nat) -> Reached {
    match advanced(pos, pad) {
        Ok(p) => aligned(p, align),
        Err(e) => Err(e),
    }
}

/// The position after the constant `magic`, where the bytes at `pos` are that
/// constant.
pub open spec fn magic_matched(data: Seq<u8>, pos: nat, magic: Seq<u8>) -> Reached {
    if pos + magic.len() > data.len() {
        Err(io_failure(IoFailure::UnexpectedEof))
    } else if data.subrange(pos as int, (pos + magic.len()) as int) == magic {
        Ok(pos + magic.len())
    } else {
        Err(ErrorModel::BadMagic { pos })
    }
}

/// As [`magic_matched`], for a constant that may not be declared.
pub open spec fn magic_passed(data: Seq<u8>, pos: nat, magic: Option<Vec<u8>>) -> Reached {
    match magic {
        Some(bytes) => magic_matched(data, pos, bytes@),
        None => Ok(pos),
    }
}

/// An integer of `width` bytes at `pos`.
pub open spec fn int_read(data: Seq<u8>, pos: nat, width: nat, signed: bool, order: ByteOrder)
    -> Parsed {
    if width == 0 || width > MAX_WIDTH {
        Err(violated(Violation::BadWidth))
    } else if pos + width > data.len() {
        Err(io_failure(IoFailure::UnexpectedEof))
    } else {
        Ok(
            (
                ValueModel::Int(
                    int_value(data.subrange(pos as int, (pos + width) as int), signed, order),
                ),
                pos + width,
            ),
        )
    }
}

/// Bytes as values, one integer each.
pub open spec fn byte_values(bytes: Seq<u8>) -> Seq<ValueModel> {
    Seq::new(bytes.len(), |k: int| ValueModel::Int(bytes[k] as int))
}

/// The place of the first zero byte at or after `pos`, if there is one.
pub open spec fn zero_from(data: Seq<u8>, pos: nat) -> Option<nat>
    decreases data.len() - pos,
{
    if pos >= data.len() {
        None
    } else if data[pos as int] == 0 {
        Some(pos)
    } else {
        zero_from(data, pos + 1)
    }
}

/// What a replacing parser reads at `pos`.
pub open spec fn parser_read(parser: Parser, data: Seq<u8>, pos: nat) -> Parsed {
    match parser {
        Parser::UntilZero => match zero_from(data, pos) {
            Some(z) => Ok(
                (ValueModel::List(byte_values(data.subrange(pos as int, z as int))), z + 1),
            ),
            None => Err(io_failure(IoFailure::UnexpectedEof)),
        },
        Parser::Remaining => if pos >= data.len() {
            Ok((ValueModel::List(Seq::empty()), pos))
        } else {
            Ok(
                (
                    ValueModel::List(byte_values(data.subrange(pos as int, data.len() as int))),
                    data.len(),
                ),
            )
        },
    }
}

/// The first zero at or after `pos` is within the data, is a zero, and no
/// byte before it is.
pub proof fn lemma_zero_from(data: Seq<u8>, pos: nat)
    ensures
        match zero_from(data, pos) {
            Some(z) => pos <= z < data.len() && data[z as int] == 0 && forall|k: int|
                pos <= k < z ==> data[k] != 0,
            None => forall|k: int| pos <= k < data.len() ==> data[k] != 0,
        },
    decreases data.len() - pos,
{
    if pos < data.len() && data[pos as int] != 0 {
        lemma_zero_from(data, pos + 1);
    }
}

/// Skips `n` bytes.
pub fn advance(pos: usize, n: usize) -> (r: Result<usize, Error>)
    ensures
        reached(r) == advanced(pos as nat, n as nat),
{
    if n > usize::MAX - pos {
        Err(Error::io(IoFailure::InvalidSeek))
    } else {
        Ok(pos + n)
    }
}

/// Skips to the next multiple of `align`.
pub fn align_to(pos: usize, align: usize) -> (r: Result<usize, Error>)
    ensures
        reached(r) == aligned(pos as nat, align as nat),
{
    if align <= 1 || pos % align == 0 {
        Ok(pos)
    } else {
        advance(pos, align - pos % align)
    }
}

/// Skips `pad` bytes, then to the next multiple of `align`.
pub fn pad_to(pos: usize, pad: usize, align: usize) -> (r: Result<usize, Error>)
    ensures
        reached(r) == padded(pos as nat, pad as nat, align as nat),
{
    match advance(pos, pad) {
        Ok(p) => align_to(p, align),
        Err(e) => Err(e),
    }
}

/// Checks the bytes at `pos` against a constant.
pub fn match_magic(data: &Vec<u8>, pos: usize, magic: &Vec<u8>) -> (r: Result<usize, Error>)
    ensures
        reached(r) == magic_matched(data@, pos as nat, magic@),
{
    let n = magic.len();
    if pos > data.len() || n > data.len() - pos {
        return Err(Error::io(IoFailure::UnexpectedEof));
    }
    let ghost field = data@.subrange(pos as int, pos + n);
    let mut k: usize = 0;
    while k < n
        invariant
            k <= n == magic.len(),
            pos + n <= data.len(),
            field == data@.subrange(pos as int, pos + n),
            forall|j: int| 0 <= j < k ==> field[j] == magic@[j],
        decreases n - k,
    {
        if data[pos + k] != magic[k] {
            return Err(Error::BadMagic { pos });
        }
        k += 1;
    }
    assert(field =~= magic@);
    Ok(pos + n)
}

/// Checks the bytes at `pos` against a constant, where one is declared.
pub fn pass_magic(data: &Vec<u8>, pos: usize, magic: &Option<Vec<u8>>) -> (r: Result<
    usize,
    Error,
>)
    ensures
        reached(r) == magic_passed(data@, pos as nat, *magic),
{
    match magic {
        Some(bytes) => match_magic(data, pos, bytes),
        None => Ok(pos),
    }
}

/// Reads an integer of `width` bytes at `pos`.
pub fn read_int(data: &Vec<u8>, pos: usize, width: usize, signed: bool, order: ByteOrder) -> (r:
    Result<(Value, usize), Error>)
    ensures
        parsed(r) == int_read(data@, pos as nat, width as nat, signed, order),
{
    if width == 0 || width > MAX_WIDTH {
        Err(Error::violation(Violation::BadWidth))
    } else if pos > data.len() || width > data.len() - pos {
        Err(Error::io(IoFailure::UnexpectedEof))
    } else {
        let v = decode_int(data, pos, width, signed, order);
        Ok((Value::Int(v), pos + width))
    }
}

/// The bytes of `data` from `from` up to `to`, as values.
pub(crate) fn bytes_as_values(data: &Vec<u8>, from: usize, to: usize) -> (r: Vec<Value>)
    requires
        from <= to <= data.len(),
    ensures
        models(r@) == byte_values(data@.subrange(from as int, to as int)),
{
    let mut out: Vec<Value> = Vec::new();
    let mut k: usize = from;
    while k < to
        invariant
            from <= k <= to <= data.len(),
            out@.len() == k - from,
            forall|j: int| 0 <= j < out@.len() ==> out@[j]@ == ValueModel::Int(data@[from + j] as int),
        decreases to - k,
    {
        out.push(Value::Int(data[k] as i128));
        k += 1;
    }
    out
}

/// Runs a replacing parser at `pos`.
pub fn run_parser(parser: Parser, data: &Vec<u8>, pos: usize) -> (r: Result<(Value, usize), Error>)
    ensures
        parsed(r) == parser_read(parser, data@, pos as nat),
{
    match parser {
        Parser::UntilZero => {
            let mut z: usize = pos;
            while z < data.len() && data[z] != 0
                invariant
                    pos <= z,
                    zero_from(data@, z as nat) == zero_from(data@, pos as nat),
                decreases data.len() - z,
            {
                z += 1;
            }
            if z >= data.len() {
                Err(Error::io(IoFailure::UnexpectedEof))
            } else {
                let items = bytes_as_values(data, pos, z);
                proof {
                    lemma_view_items(0, items);
                }
                Ok((Value::List(items), z + 1))
            }
        },
        Parser::Remaining => {
            if pos >= data.len() {
                let items: Vec<Value> = Vec::new();
                proof {
                    lemma_view_items(0, items);
                    assert(models(items@) =~= Seq::<ValueModel>::empty());
                }
                Ok((Value::List(items), pos))
            } else {
                let items = bytes_as_values(data, pos, data.len());
                proof {
                    lemma_view_items(0, items);
                }
                Ok((Value::List(items), data.len()))
            }
        },
    }
}

} // verus!

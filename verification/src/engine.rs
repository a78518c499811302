//! The two entry points of the engine: reading a value of a type from a
//! cursor, and writing one to it.

use crate::cursor::Cursor;
use crate::endian::{native_order, settle, settled, ByteOrder, Endian};
use crate::error::{Error, ErrorModel};
use crate::reader::{read_type, type_model};
use crate::schema::Schema;
use crate::value::{models, Value, ValueModel};
use crate::writer::{write_type, wtype_model};
use vstd::prelude::*;

verus! {

/// What a top-level call is made with.
#[derive(Debug, PartialEq, Eq)]
pub struct Configuration {
    /// The byte order of every field that no level of the layout overrides.
    pub endianness: Endian,
    /// The arguments of the type.
    pub arguments: Vec<Value>,
    /// The position that references are relative to, unless a field names
    /// its own; the start of the stream where there is none.
    pub starting_offset: Option<usize>,
}

impl Configuration {
    /// The position that references are relative to.
    pub open spec fn base(self) -> nat {
        match self.starting_offset {
            Some(b) => b as nat,
            None => 0,
        }
    }

    /// A configuration with this byte order, no arguments and no offset.
    pub fn new(endianness: Endian) -> (c: Configuration)
        ensures
            c.endianness == endianness,
            c.arguments@.len() == 0,
            c.starting_offset is None,
    {
        Configuration { endianness, arguments: Vec::new(), starting_offset: None }
    }
}

/// What a read hands back, and where it leaves the cursor: after the value,
/// or, where it fails, where it found the cursor.
pub open spec fn read_model(
    schema: Schema,
    ty: nat,
    data: Seq<u8>,
    pos: nat,
    order: ByteOrder,
    base: nat,
    args: Seq<ValueModel>,
) -> (Result<ValueModel, ErrorModel>, nat) {
    match type_model(schema, data, ty, pos, order, base, args) {
        Ok((v, p)) => (Ok(v), p),
        Err(e) => (Err(e), pos),
    }
}

/// The model of what an executable read handed back, and where it left the
/// cursor.
pub open spec fn read_outcome(r: Result<Value, Error>, cursor: Cursor) -> (
    Result<ValueModel, ErrorModel>,
    nat,
) {
    match r {
        Ok(v) => (Ok(v@), cursor.pos as nat),
        Err(e) => (Err(e@), cursor.pos as nat),
    }
}

/// Reads a value of the type at index `ty` of the schema from the cursor, in
/// a settled byte order.
pub fn read_with(
    schema: &Schema,
    ty: usize,
    cursor: &mut Cursor,
    order: ByteOrder,
    base: usize,
    args: &Vec<Value>,
) -> (r: Result<Value, Error>)
    ensures
        final(cursor).data@ == old(cursor).data@,
        read_outcome(r, *final(cursor)) == read_model(
            *schema,
            ty as nat,
            old(cursor).data@,
            old(cursor).pos as nat,
            order,
            base as nat,
            models(args@),
        ),
{
    match read_type(schema, &cursor.data, ty, cursor.pos, order, base, args) {
        Ok((v, p)) => {
            cursor.pos = p;
            Ok(v)
        },
        Err(e) => Err(e),
    }
}

/// Reads a value of the type at index `ty` of the schema from the cursor.
///
/// Where the configuration asks for the native byte order, the order of the
/// machine is taken: the result is then what [`read_with`] gives for one of
/// the two orders.
pub fn read(schema: &Schema, ty: usize, cursor: &mut Cursor, config: &Configuration) -> (r: Result<
    Value,
    Error,
>)
    ensures
        final(cursor).data@ == old(cursor).data@,
        config.endianness != Endian::Native ==> read_outcome(r, *final(cursor)) == read_model(
            *schema,
            ty as nat,
            old(cursor).data@,
            old(cursor).pos as nat,
            settled(config.endianness, ByteOrder::Big),
            config.base(),
            models(config.arguments@),
        ),
        config.endianness == Endian::Native ==> read_outcome(r, *final(cursor)) == read_model(
            *schema,
            ty as nat,
            old(cursor).data@,
            old(cursor).pos as nat,
            ByteOrder::Big,
            config.base(),
            models(config.arguments@),
        ) || read_outcome(r, *final(cursor)) == read_model(
            *schema,
            ty as nat,
            old(cursor).data@,
            old(cursor).pos as nat,
            ByteOrder::Little,
            config.base(),
            models(config.arguments@),
        ),
{
    let native = match config.endianness {
        Endian::Native => native_order(),
        _ => ByteOrder::Big,
    };
    let order = settle(config.endianness, native);
    let base = match config.starting_offset {
        Some(b) => b,
        None => 0,
    };
    read_with(schema, ty, cursor, order, base, &config.arguments)
}

/// What a write leaves in a cursor that held `data` and stood at `pos`: the
/// bytes and the position after the value, or, where it fails, the error
/// with the cursor as it was.
pub open spec fn write_model(
    schema: Schema,
    ty: nat,
    v: ValueModel,
    data: Seq<u8>,
    pos: nat,
    order: ByteOrder,
    base: nat,
    args: Seq<ValueModel>,
) -> (Result<(), ErrorModel>, Seq<u8>, nat) {
    match wtype_model(schema, ty, v, data, pos, order, base, args) {
        Ok((buf, p)) => (Ok(()), buf, p),
        Err(e) => (Err(e), data, pos),
    }
}

/// The model of what an executable write handed back, and what it left in
/// the cursor.
pub open spec fn write_outcome(r: Result<(), Error>, cursor: Cursor) -> (
    Result<(), ErrorModel>,
    Seq<u8>,
    nat,
) {
    match r {
        Ok(()) => (Ok(()), cursor.data@, cursor.pos as nat),
        Err(e) => (Err(e@), cursor.data@, cursor.pos as nat),
    }
}

/// A copy of the bytes.
fn copy_bytes(data: &Vec<u8>) -> (r: Vec<u8>)
    ensures
        r@ == data@,
{
    let mut out: Vec<u8> = Vec::new();
    let mut k: usize = 0;
    while k < data.len()
        invariant
            k <= data.len(),
            out@ == data@.subrange(0, k as int),
        decreases data.len() - k,
    {
        out.push(data[k]);
        k += 1;
    }
    out
}

/// Writes a value of the type at index `ty` of the schema to the cursor, in
/// a settled byte order. A write that fails leaves the cursor as it was.
pub fn write_with(
    schema: &Schema,
    ty: usize,
    cursor: &mut Cursor,
    order: ByteOrder,
    base: usize,
    args: &Vec<Value>,
    value: &Value,
) -> (r: Result<(), Error>)
    ensures
        write_outcome(r, *final(cursor)) == write_model(
            *schema,
            ty as nat,
            value@,
            old(cursor).data@,
            old(cursor).pos as nat,
            order,
            base as nat,
            models(args@),
        ),
{
    let mut work = copy_bytes(&cursor.data);
    match write_type(schema, ty, value, &mut work, cursor.pos, order, base, args) {
        Ok(p) => {
            cursor.data = work;
            cursor.pos = p;
            Ok(())
        },
        Err(e) => Err(e),
    }
}

/// Writes a value of the type at index `ty` of the schema to the cursor.
///
/// Where the configuration asks for the native byte order, the order of the
/// machine is taken: the result is then what [`write_with`] gives for one of
/// the two orders.
pub fn write(
    schema: &Schema,
    ty: usize,
    cursor: &mut Cursor,
    config: &Configuration,
    value: &Value,
) -> (r: Result<(), Error>)
    ensures
        config.endianness != Endian::Native ==> write_outcome(r, *final(cursor)) == write_model(
            *schema,
            ty as nat,
            value@,
            old(cursor).data@,
            old(cursor).pos as nat,
            settled(config.endianness, ByteOrder::Big),
            config.base(),
            models(config.arguments@),
        ),
        config.endianness == Endian::Native ==> write_outcome(r, *final(cursor)) == write_model(
            *schema,
            ty as nat,
            value@,
            old(cursor).data@,
            old(cursor).pos as nat,
            ByteOrder::Big,
            config.base(),
            models(config.arguments@),
        ) || write_outcome(r, *final(cursor)) == write_model(
            *schema,
            ty as nat,
            value@,
            old(cursor).data@,
            old(cursor).pos as nat,
            ByteOrder::Little,
            config.base(),
            models(config.arguments@),
        ),
{
    let native = match config.endianness {
        Endian::Native => native_order(),
        _ => ByteOrder::Big,
    };
    let order = settle(config.endianness, native);
    let base = match config.starting_offset {
        Some(b) => b,
        None => 0,
    };
    write_with(schema, ty, cursor, order, base, &config.arguments, value)
}

} // verus!

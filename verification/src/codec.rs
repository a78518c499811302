//! Fixed-width integers as bytes, in either byte order.

use crate::endian::ByteOrder;
use crate::error::Violation;
use vstd::prelude::*;

verus! {

/// The widest integer field, in bytes.
pub const MAX_WIDTH: usize = 8;

/// The number of values that `width` bytes can tell apart: 256 to that power.
pub open spec fn span(width: nat) -> nat
    decreases width,
{
    if width == 0 {
        1
    } else {
        256 * span((width - 1) as nat)
    }
}

/// The number that `bytes` spell with the most significant byte first.
pub open spec fn be_value(bytes: Seq<u8>) -> nat
    decreases bytes.len(),
{
    if bytes.len() == 0 {
        0
    } else {
        be_value(bytes.drop_last()) * 256 + bytes.last() as nat
    }
}

/// The `width` low bytes of `v`, the most significant first.
pub open spec fn be_bytes(v: nat, width: nat) -> Seq<u8>
    decreases width,
{
    if width == 0 {
        Seq::empty()
    } else {
        be_bytes(v / 256, (width - 1) as nat).push((v % 256) as u8)
    }
}

/// `bytes` as they stand in the stream, put most significant first.
pub open spec fn ordered(bytes: Seq<u8>, order: ByteOrder) -> Seq<u8> {
    match order {
        ByteOrder::Big => bytes,
        ByteOrder::Little => bytes.reverse(),
    }
}

/// The unsigned number that `bytes` spell in the given order.
pub open spec fn unsigned_value(bytes: Seq<u8>, order: ByteOrder) -> nat {
    be_value(ordered(bytes, order))
}

/// The integer that `bytes` spell: unsigned, or in two's complement.
pub open spec fn int_value(bytes: Seq<u8>, signed: bool, order: ByteOrder) -> int {
    let u = unsigned_value(bytes, order);
    if signed && 2 * u >= span(bytes.len()) {
        u - span(bytes.len())
    } else {
        u as int
    }
}

/// Whether `v` can be written in `width` bytes.
pub open spec fn representable(v: int, width: nat, signed: bool) -> bool {
    if signed {
        -(span(width) as int) <= 2 * v < span(width)
    } else {
        0 <= v < span(width)
    }
}

/// The bytes of `v` in `width` bytes and the given order; a negative number
/// in two's complement.
pub open spec fn int_bytes(v: int, width: nat, order: ByteOrder) -> Seq<u8> {
    let u = if v < 0 {
        v + span(width)
    } else {
        v
    };
    ordered(be_bytes(u as nat, width), order)
}

/// The spans of the widths that the engine reads and writes.
pub proof fn lemma_span_values()
    ensures
        span(0) == 1,
        span(1) == 0x100,
        span(2) == 0x1_0000,
        span(3) == 0x100_0000,
        span(4) == 0x1_0000_0000,
        span(5) == 0x100_0000_0000,
        span(6) == 0x1_0000_0000_0000,
        span(7) == 0x100_0000_0000_0000,
        span(8) == 0x1_0000_0000_0000_0000,
{
    reveal_with_fuel(span, 10);
}

/// A wider field tells more values apart.
pub proof fn lemma_span_grows(a: nat, b: nat)
    requires
        a <= b,
    ensures
        1 <= span(a) <= span(b),
    decreases b,
{
    if b == 0 {
    } else if a == b {
        lemma_span_grows(0, (b - 1) as nat);
    } else {
        lemma_span_grows(a, (b - 1) as nat);
    }
}

/// Bytes spell a number below the span of their width.
pub proof fn lemma_be_value_bound(bytes: Seq<u8>)
    ensures
        be_value(bytes) < span(bytes.len()),
    decreases bytes.len(),
{
    if bytes.len() > 0 {
        lemma_be_value_bound(bytes.drop_last());
    }
}

/// The bytes of a number are as many as the width asks for.
pub proof fn lemma_be_bytes_len(v: nat, width: nat)
    ensures
        be_bytes(v, width).len() == width,
    decreases width,
{
    if width > 0 {
        lemma_be_bytes_len(v / 256, (width - 1) as nat);
    }
}

/// Writing a number that fits and reading the bytes gives the number back.
pub proof fn lemma_be_value_of_bytes(v: nat, width: nat)
    requires
        v < span(width),
    ensures
        be_value(be_bytes(v, width)) == v,
    decreases width,
{
    if width > 0 {
        let rest = be_bytes(v / 256, (width - 1) as nat);
        lemma_be_value_of_bytes(v / 256, (width - 1) as nat);
        assert(be_bytes(v, width).drop_last() =~= rest);
    }
}

/// Reading bytes and writing the number in their width gives the bytes back.
pub proof fn lemma_be_bytes_of_value(bytes: Seq<u8>)
    ensures
        be_bytes(be_value(bytes), bytes.len()) == bytes,
    decreases bytes.len(),
{
    if bytes.len() > 0 {
        lemma_be_bytes_of_value(bytes.drop_last());
    }
}

/// Putting bytes in order twice gives them back.
pub proof fn lemma_ordered_twice(bytes: Seq<u8>, order: ByteOrder)
    ensures
        ordered(ordered(bytes, order), order) == bytes,
        ordered(bytes, order).len() == bytes.len(),
{
}

/// An integer that fits its field is read back as it was written.
pub proof fn lemma_int_round_trip(v: int, width: nat, signed: bool, order: ByteOrder)
    requires
        representable(v, width, signed),
    ensures
        int_bytes(v, width, order).len() == width,
        int_value(int_bytes(v, width, order), signed, order) == v,
{
    let u = (if v < 0 {
        v + span(width)
    } else {
        v
    }) as nat;
    lemma_span_grows(0, width);
    lemma_be_bytes_len(u, width);
    lemma_ordered_twice(be_bytes(u, width), order);
    lemma_be_value_of_bytes(u, width);
}

/// The bytes of an integer field are written back as they were read, and what
/// was read fits the field.
pub proof fn lemma_bytes_round_trip(bytes: Seq<u8>, signed: bool, order: ByteOrder)
    ensures
        representable(int_value(bytes, signed, order), bytes.len(), signed),
        int_bytes(int_value(bytes, signed, order), bytes.len(), order) == bytes,
{
    let sorted = ordered(bytes, order);
    lemma_ordered_twice(bytes, order);
    lemma_be_value_bound(sorted);
    lemma_be_bytes_of_value(sorted);
    lemma_span_grows(0, bytes.len());
}

/// The span of a width as a number, for the widths the engine knows.
pub(crate) fn span_of(width: usize) -> (r: i128)
    requires
        width <= MAX_WIDTH,
    ensures
        r == span(width as nat),
{
    let mut r: i128 = 1;
    let mut k: usize = 0;
    while k < width
        invariant
            k <= width <= MAX_WIDTH,
            r == span(k as nat),
        decreases width - k,
    {
        proof {
            lemma_span_grows((k + 1) as nat, 8);
            lemma_span_values();
        }
        r = r * 256;
        k += 1;
    }
    r
}

/// Reads the integer that stands in `width` bytes of `data` from `pos` on.
pub(crate) fn decode_int(data: &Vec<u8>, pos: usize, width: usize, signed: bool, order: ByteOrder) -> (r:
    i128)
    requires
        width <= MAX_WIDTH,
        pos + width <= data.len(),
    ensures
        r == int_value(data@.subrange(pos as int, pos + width), signed, order),
{
    let ghost field = data@.subrange(pos as int, pos + width);
    let ghost sorted = ordered(field, order);
    let mut acc: i128 = 0;
    let mut k: usize = 0;
    while k < width
        invariant
            k <= width <= MAX_WIDTH,
            pos + width <= data.len(),
            field == data@.subrange(pos as int, pos + width),
            sorted == ordered(field, order),
            sorted.len() == width,
            acc == be_value(sorted.subrange(0, k as int)),
        decreases width - k,
    {
        let byte = match order {
            ByteOrder::Big => data[pos + k],
            ByteOrder::Little => data[pos + (width - 1 - k)],
        };
        proof {
            let before = sorted.subrange(0, k as int);
            let after = sorted.subrange(0, k + 1);
            assert(after.drop_last() =~= before);
            lemma_be_value_bound(before);
            lemma_span_grows(k as nat, 7);
            lemma_span_values();
        }
        acc = acc * 256 + byte as i128;
        k += 1;
    }
    proof {
        assert(sorted.subrange(0, width as int) =~= sorted);
        lemma_be_value_bound(sorted);
        lemma_span_grows(width as nat, 8);
        lemma_span_values();
    }
    if signed {
        let full = span_of(width);
        if 2 * acc >= full {
            acc - full
        } else {
            acc
        }
    } else {
        acc
    }
}

/// Whether `v` can be written in `width` bytes.
pub(crate) fn fits(v: i128, width: usize, signed: bool) -> (b: bool)
    requires
        width <= MAX_WIDTH,
    ensures
        b == representable(v as int, width as nat, signed),
{
    let full = span_of(width);
    proof {
        lemma_span_grows(width as nat, 8);
        lemma_span_values();
    }
    if signed {
        if v < -full || v > full {
            false
        } else {
            -full <= 2 * v && 2 * v < full
        }
    } else {
        0 <= v && v < full
    }
}

/// The bytes of `v` in `width` bytes and the given order, or an overflow
/// where `v` does not fit.
pub(crate) fn encode_int(v: i128, width: usize, signed: bool, order: ByteOrder) -> (r: Result<
    Vec<u8>,
    Violation,
>)
    requires
        width <= MAX_WIDTH,
    ensures
        match r {
            Ok(bytes) => representable(v as int, width as nat, signed) && bytes@ == int_bytes(
                v as int,
                width as nat,
                order,
            ),
            Err(x) => !representable(v as int, width as nat, signed) && x == Violation::Overflow,
        },
{
    if !fits(v, width, signed) {
        return Err(Violation::Overflow);
    }
    let full = span_of(width);
    proof {
        lemma_span_grows(width as nat, 8);
        lemma_span_values();
    }
    let u: i128 = if v < 0 {
        v + full
    } else {
        v
    };
    let mut high: Vec<u8> = Vec::new();
    let mut k: usize = 0;
    while k < width
        invariant
            k <= width <= MAX_WIDTH,
            0 <= u < span(width as nat),
            high@ == be_bytes((u as nat) / span((width - k) as nat), k as nat),
        decreases width - k,
    {
        let scale = span_of(width - 1 - k);
        proof {
            lemma_span_grows((width - 1 - k) as nat, 8);
            lemma_span_values();
            let c = span((width - 1 - k) as nat);
            vstd::arithmetic::div_mod::lemma_div_denominator(u as int, c as int, 256);
            assert(c * 256 == 256 * c) by (nonlinear_arith);
        }
        let digit = (u / scale) % 256;
        high.push(digit as u8);
        k += 1;
    }
    assert(high@ == be_bytes(u as nat, width as nat)) by {
        assert((u as nat) / 1 == u as nat);
    }
    proof {
        lemma_be_bytes_len(u as nat, width as nat);
    }
    match order {
        ByteOrder::Big => Ok(high),
        ByteOrder::Little => {
            let mut low: Vec<u8> = Vec::new();
            let mut j: usize = 0;
            while j < width
                invariant
                    j <= width,
                    high@.len() == width,
                    low@.len() == j,
                    forall|i: int| 0 <= i < j ==> low@[i] == high@[width - 1 - i],
                decreases width - j,
            {
                low.push(high[width - 1 - j]);
                j += 1;
            }
            Ok(low)
        },
    }
}

} // verus!

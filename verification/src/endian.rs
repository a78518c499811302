//! Byte orders and the rule that picks the one a field is read or written in.

use vstd::prelude::*;

verus! {

/// A byte order as a caller may ask for it.
#[derive(Clone, Copy, Debug, PartialEq, Eq, Structural)]
pub enum Endian {
    Big,
    Little,
    /// The order of the machine that runs the engine.
    Native,
}

/// A byte order that has been settled: most significant byte first, or last.
#[derive(Clone, Copy, Debug, PartialEq, Eq, Structural)]
pub enum ByteOrder {
    Big,
    Little,
}

impl ByteOrder {
    /// The other byte order.
    pub open spec fn flipped(self) -> ByteOrder {
        match self {
            ByteOrder::Big => ByteOrder::Little,
            ByteOrder::Little => ByteOrder::Big,
        }
    }

    /// The other byte order.
    pub fn flip(self) -> (r: ByteOrder)
        ensures
            r == self.flipped(),
    {
        match self {
            ByteOrder::Big => ByteOrder::Little,
            ByteOrder::Little => ByteOrder::Big,
        }
    }
}

/// The order that a configuration stands for on a machine whose own order is
/// `native`.
pub open spec fn settled(configured: Endian, native: ByteOrder) -> ByteOrder {
    match configured {
        Endian::Big => ByteOrder::Big,
        Endian::Little => ByteOrder::Little,
        Endian::Native => native,
    }
}

/// What an override does to the order that reaches it: it replaces it, or,
/// where there is none, lets it through.
pub open spec fn overridden(level: Option<ByteOrder>, inherited: ByteOrder) -> ByteOrder {
    match level {
        Some(order) => order,
        None => inherited,
    }
}

/// The byte order of a field: the field's own override if it has one, else
/// the variant's, else the type's, else the configured order, which may in
/// turn stand for the machine's.
pub open spec fn precedence(
    field: Option<ByteOrder>,
    variant: Option<ByteOrder>,
    ty: Option<ByteOrder>,
    configured: Endian,
    native: ByteOrder,
) -> ByteOrder {
    if field is Some {
        field->0
    } else if variant is Some {
        variant->0
    } else if ty is Some {
        ty->0
    } else if configured != Endian::Native {
        settled(configured, native)
    } else {
        native
    }
}

/// Settles a configured order on a machine whose own order is `native`.
pub fn settle(configured: Endian, native: ByteOrder) -> (r: ByteOrder)
    ensures
        r == settled(configured, native),
{
    match configured {
        Endian::Big => ByteOrder::Big,
        Endian::Little => ByteOrder::Little,
        Endian::Native => native,
    }
}

/// Applies one level's override to the order inherited from the level above.
pub fn apply_override(level: Option<ByteOrder>, inherited: ByteOrder) -> (r: ByteOrder)
    ensures
        r == overridden(level, inherited),
{
    match level {
        Some(order) => order,
        None => inherited,
    }
}

/// Picks the byte order of one field from the overrides of every level.
pub fn resolve_order(
    field: Option<ByteOrder>,
    variant: Option<ByteOrder>,
    ty: Option<ByteOrder>,
    configured: Endian,
    native: ByteOrder,
) -> (r: ByteOrder)
    ensures
        r == precedence(field, variant, ty, configured, native),
{
    let from_config = settle(configured, native);
    let from_type = apply_override(ty, from_config);
    let from_variant = apply_override(variant, from_type);
    apply_override(field, from_variant)
}

/// Passing the order down level by level, each level applying its own
/// override, gives the same order as the precedence rule.
pub proof fn lemma_cascade_is_precedence(
    field: Option<ByteOrder>,
    variant: Option<ByteOrder>,
    ty: Option<ByteOrder>,
    configured: Endian,
    native: ByteOrder,
)
    ensures
        overridden(field, overridden(variant, overridden(ty, settled(configured, native))))
            == precedence(field, variant, ty, configured, native),
{
}

/// The precedence of byte-order overrides, for every placement of them: a
/// field's override wins over everything; without one the variant's wins;
/// without that the type's; without that the configured order; and where the
/// configuration asks for the native order, the machine's own.
pub proof fn lemma_precedence_order(
    field: Option<ByteOrder>,
    variant: Option<ByteOrder>,
    ty: Option<ByteOrder>,
    configured: Endian,
    native: ByteOrder,
)
    ensures
        field is Some ==> precedence(field, variant, ty, configured, native) == field->0,
        field is None && variant is Some ==> precedence(field, variant, ty, configured, native)
            == variant->0,
        field is None && variant is None && ty is Some ==> precedence(
            field,
            variant,
            ty,
            configured,
            native,
        ) == ty->0,
        field is None && variant is None && ty is None && configured == Endian::Big
            ==> precedence(field, variant, ty, configured, native) == ByteOrder::Big,
        field is None && variant is None && ty is None && configured == Endian::Little
            ==> precedence(field, variant, ty, configured, native) == ByteOrder::Little,
        field is None && variant is None && ty is None && configured == Endian::Native
            ==> precedence(field, variant, ty, configured, native) == native,
{
}

/// The two bytes of the number one in the order of this machine.
///
/// Calls `u16::to_ne_bytes` of std, which lays a number out in the byte order
/// of the target. Nothing is claimed beyond what holds on every machine: the
/// low byte comes first or last.
#[verifier::external_body]
fn native_bytes_of_one() -> (r: [u8; 2])
    ensures
        (r[0] == 1 && r[1] == 0) || (r[0] == 0 && r[1] == 1),
{
    1u16.to_ne_bytes()
}

/// The byte order of the machine that runs this code.
pub fn native_order() -> (r: ByteOrder) {
    let probe = native_bytes_of_one();
    order_of_probe(probe[0])
}

/// The byte order of a machine on which the number one begins with the byte
/// `first`.
pub fn order_of_probe(first: u8) -> (r: ByteOrder)
    ensures
        r == if first == 1 { ByteOrder::Little } else { ByteOrder::Big },
{
    if first == 1 {
        ByteOrder::Little
    } else {
        ByteOrder::Big
    }
}

} // verus!

//! The parameter schema a guest module declares: an ordered list of tagged
//! parameter descriptors, each mapping to exactly one core value kind.
//!
//! 32-bit float fields are carried as their IEEE 754 bit patterns (`u32`);
//! the host never computes with them, it only moves them between the schema
//! text and the guest's argument list.

use vstd::prelude::*;

verus! {

/// The kinds of core values a guest callback parameter can have.
///
/// These mirror the value types of the execution engine's type section, so a
/// declared schema can be checked against the callback's actual signature.
#[derive(Debug, Clone, Copy, PartialEq, Eq, Structural)]
pub enum ValueKind {
    I32,
    I64,
    F32,
    F64,
    V128,
    FuncRef,
    ExternRef,
}

/// A core value the host passes positionally to the guest callback.
///
/// Floats are carried as IEEE 754 bit patterns; the engine boundary turns
/// them back into engine float values when the callback is invoked.
#[derive(Debug, Clone, Copy, PartialEq, Eq, Structural)]
pub enum Value {
    I32(i32),
    F32Bits(u32),
    F64Bits(u64),
}

impl Value {
    /// The kind of this value.
    pub open spec fn spec_kind(self) -> ValueKind {
        match self {
            Value::I32(_) => ValueKind::I32,
            Value::F32Bits(_) => ValueKind::F32,
            Value::F64Bits(_) => ValueKind::F64,
        }
    }

    /// Report which core value kind this value has.
    pub fn kind(&self) -> (k: ValueKind)
        ensures
            k == self.spec_kind(),
    {
        match self {
            Value::I32(_) => ValueKind::I32,
            Value::F32Bits(_) => ValueKind::F32,
            Value::F64Bits(_) => ValueKind::F64,
        }
    }
}

/// One guest-declared parameter descriptor.
///
/// `RangeF32` carries its three 32-bit float fields as IEEE 754 bit patterns.
#[derive(Debug, Clone, Copy, PartialEq, Eq, Structural)]
pub enum SchemaType {
    Time,
    RangeF32 { min: u32, max: u32, default: u32 },
    RangeI32 { min: i32, max: i32, default: i32 },
}

/// An ordered parameter schema; the order is the positional argument order of
/// the guest callback.
pub type Schema = Vec<SchemaType>;

impl SchemaType {
    /// The core value kind this descriptor maps to.
    pub open spec fn spec_value_kind(self) -> ValueKind {
        match self {
            SchemaType::Time => ValueKind::F64,
            SchemaType::RangeF32 { .. } => ValueKind::F32,
            SchemaType::RangeI32 { .. } => ValueKind::I32,
        }
    }

    /// Map this descriptor to the core value kind of the callback parameter
    /// it stands for: time is passed as a 64-bit float.
    pub fn to_value_kind(&self) -> (k: ValueKind)
        ensures
            k == self.spec_value_kind(),
    {
        match self {
            SchemaType::Time => ValueKind::F64,
            SchemaType::RangeF32 { .. } => ValueKind::F32,
            SchemaType::RangeI32 { .. } => ValueKind::I32,
        }
    }
}

/// The value kinds a whole schema expects of the callback, in order.
pub open spec fn expected_kinds(schema: Seq<SchemaType>) -> Seq<ValueKind> {
    schema.map_values(|s: SchemaType| s.spec_value_kind())
}

/// Compute the callback parameter kinds a schema demands, position by
/// position.
pub fn expected_params(schema: &Schema) -> (r: Vec<ValueKind>)
    ensures
        r@ == expected_kinds(schema@),
{
    let mut r: Vec<ValueKind> = Vec::new();
    let mut i: usize = 0;
    while i < schema.len()
        invariant
            i <= schema@.len(),
            r@ == expected_kinds(schema@.subrange(0, i as int)),
        decreases schema@.len() - i,
    {
        r.push(schema[i].to_value_kind());
        i = i + 1;
        proof {
            assert(schema@.subrange(0, i as int).drop_last() =~= schema@.subrange(
                0,
                i as int - 1,
            ));
            assert(r@ =~= expected_kinds(schema@.subrange(0, i as int)));
        }
    }
    proof {
        assert(schema@.subrange(0, schema@.len() as int) =~= schema@);
    }
    r
}

} // verus!

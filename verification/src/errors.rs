//! The categorized errors a load attempt can end with, each with an exact
//! message text so ABI mismatches can be diagnosed.

use vstd::prelude::*;

use crate::schema::ValueKind;

verus! {

/// Why loading a guest module failed.  No session exists after any of
/// these.
#[derive(Debug)]
pub enum LoadError {
    /// The bytecode failed structural validation.
    Malformed(String),
    /// The module needs a start function or an import the host does not
    /// provide.
    InstantiateError(String),
    /// A required export (named here) is absent.
    MissingExport(String),
    /// The `SCHEMA` global is not a 32-bit integer, points at no
    /// null-terminated UTF-8 string, or the string is not a schema.
    SchemaError(String),
    /// The callback's parameters disagree with the declared schema; both
    /// sequences are carried verbatim.
    SchemaMismatch { expected: Vec<ValueKind>, actual: Vec<ValueKind> },
    /// The callback declares results.
    InvalidSignature,
}

/// The display name of one value kind.
pub open spec fn kind_name(k: ValueKind) -> Seq<char> {
    match k {
        ValueKind::I32 => "I32"@,
        ValueKind::I64 => "I64"@,
        ValueKind::F32 => "F32"@,
        ValueKind::F64 => "F64"@,
        ValueKind::V128 => "V128"@,
        ValueKind::FuncRef => "FuncRef"@,
        ValueKind::ExternRef => "ExternRef"@,
    }
}

/// The kinds joined with `", "`.
pub open spec fn kinds_inner(s: Seq<ValueKind>) -> Seq<char>
    decreases s.len(),
{
    if s.len() == 0 {
        Seq::<char>::empty()
    } else if s.len() == 1 {
        kind_name(s[0])
    } else {
        kinds_inner(s.drop_last()) + ", "@ + kind_name(s.last())
    }
}

/// A kind sequence written as a bracketed list, `[F32, I32]`.
pub open spec fn kinds_text(s: Seq<ValueKind>) -> Seq<char> {
    "["@ + kinds_inner(s) + "]"@
}

/// Write one kind's name.
pub fn kind_name_exec(k: ValueKind) -> (r: &'static str)
    ensures
        r@ == kind_name(k),
{
    match k {
        ValueKind::I32 => "I32",
        ValueKind::I64 => "I64",
        ValueKind::F32 => "F32",
        ValueKind::F64 => "F64",
        ValueKind::V128 => "V128",
        ValueKind::FuncRef => "FuncRef",
        ValueKind::ExternRef => "ExternRef",
    }
}

/// Write a kind sequence as a bracketed list.
pub fn kinds_text_exec(s: &Vec<ValueKind>) -> (r: String)
    ensures
        r@ == kinds_text(s@),
{
    let mut out = String::new();
    out.append("[");
    let mut i: usize = 0;
    while i < s.len()
        invariant
            i <= s@.len(),
            out@ == "["@ + kinds_inner(s@.subrange(0, i as int)),
        decreases s@.len() - i,
    {
        if i > 0 {
            out.append(", ");
        }
        out.append(kind_name_exec(s[i]));
        i = i + 1;
        proof {
            let pre = s@.subrange(0, i as int);
            assert(pre.drop_last() =~= s@.subrange(0, i - 1));
            if i > 1 {
                assert(out@ =~= "["@ + kinds_inner(pre));
            } else {
                assert(pre =~= seq![s@[0]]);
                assert(out@ =~= "["@ + kinds_inner(pre));
            }
        }
    }
    out.append("]");
    proof {
        assert(s@.subrange(0, s@.len() as int) =~= s@);
        assert(out@ =~= kinds_text(s@));
    }
    out
}

impl LoadError {
    /// The exact message text of each error.
    pub open spec fn spec_message(self) -> Seq<char> {
        match self {
            LoadError::Malformed(d) => "Failed to create module: "@ + d@,
            LoadError::InstantiateError(d) => "Failed to instantiate module: "@ + d@,
            LoadError::MissingExport(name) => "Module must export '"@ + name@ + "'"@,
            LoadError::SchemaError(d) => "Invalid schema: "@ + d@,
            LoadError::SchemaMismatch { expected, actual } =>
                "request_animation_frame parameters don't match schema. Expected: "@ + kinds_text(
                expected@,
            ) + ", Got: "@ + kinds_text(actual@),
            LoadError::InvalidSignature => "request_animation_frame must not return any values"@,
        }
    }

    /// Write the error as its message text.
    pub fn message(&self) -> (r: String)
        ensures
            r@ == self.spec_message(),
    {
        match self {
            LoadError::Malformed(d) => {
                let mut out = String::new();
                out.append("Failed to create module: ");
                out.append(d.as_str());
                out
            },
            LoadError::InstantiateError(d) => {
                let mut out = String::new();
                out.append("Failed to instantiate module: ");
                out.append(d.as_str());
                out
            },
            LoadError::MissingExport(name) => {
                let mut out = String::new();
                out.append("Module must export '");
                out.append(name.as_str());
                out.append("'");
                out
            },
            LoadError::SchemaError(d) => {
                let mut out = String::new();
                out.append("Invalid schema: ");
                out.append(d.as_str());
                out
            },
            LoadError::SchemaMismatch { expected, actual } => {
                let mut out = String::new();
                out.append("request_animation_frame parameters don't match schema. Expected: ");
                let e = kinds_text_exec(expected);
                out.append(e.as_str());
                out.append(", Got: ");
                let a = kinds_text_exec(actual);
                out.append(a.as_str());
                out
            },
            LoadError::InvalidSignature => {
                "request_animation_frame must not return any values".to_owned()
            },
        }
    }
}

} // verus!

//! The session: a loaded, validated guest module together with its schema,
//! per-position overrides, creation instant, captured output and the sticky
//! failure flag; and the frame driver that runs one render step at a time.
//!
//! The session's fields are private and its state functions closed: a
//! session exists only through [`Wasm::new`], so its handles always belong
//! to its own store and the engine can never be handed a foreign handle.

use vstd::prelude::*;

use crate::codec::{decode_schema_chars, parse_schema_text};
use crate::engine::{
    call_callback, captured, compiles, elapsed_seconds_bits, engine_default, error_text,
    export_fn_params, export_fn_results, export_global_i32, fn_export, func_params, func_results,
    func_store, func_type, func_type_params, func_type_results, glob_export, global_i32,
    has_start, initial_memory, instance_func, instance_global, instance_memory, instance_no_start,
    instant_now, instantiable, linker_define_render, linker_instantiate, linker_new, mem_export,
    memory_data, module_compile, params_of, results_of, store_id, store_new,
};
use crate::errors::LoadError;
use crate::schema::{expected_kinds, expected_params, Schema, SchemaType, Value, ValueKind};
use crate::text::{c_string_at, chars_vec, scan_c_string, utf8_to_string};
use vstd::utf8::{decode_utf8, valid_utf8};

verus! {

/// One value of the callback's argument list, per schema position: the time
/// slot carries the given elapsed-seconds bit pattern, a range slot carries
/// its override if set, else its declared default.
pub open spec fn marshal_at(s: SchemaType, o: Option<Value>, time_bits: u64) -> Value {
    match s {
        SchemaType::Time => Value::F64Bits(time_bits),
        SchemaType::RangeF32 { min: _, max: _, default } => match o {
            Some(v) => v,
            None => Value::F32Bits(default),
        },
        SchemaType::RangeI32 { min: _, max: _, default } => match o {
            Some(v) => v,
            None => Value::I32(default),
        },
    }
}

/// An override stored for a schema position must carry that position's value
/// kind, and the time slot is never overridable.
pub open spec fn override_ok(s: SchemaType, o: Option<Value>) -> bool {
    match o {
        None => true,
        Some(v) => v.spec_kind() == s.spec_value_kind() && !(s is Time),
    }
}

/// The name of the guest's callback export.
pub open spec fn callback_name() -> Seq<char> {
    "request_animation_frame"@
}

/// The schema a module's bytes declare: the empty schema when no `SCHEMA`
/// global is exported; otherwise the global must be a 32-bit integer whose
/// value addresses a null-terminated UTF-8 string in the instance's initial
/// memory that reads as a schema — `None` when any of that fails.
pub open spec fn schema_of(b: Seq<u8>) -> Option<Seq<SchemaType>> {
    if !glob_export(b, "SCHEMA"@) {
        Some(Seq::<SchemaType>::empty())
    } else {
        match export_global_i32(b, "SCHEMA"@) {
            None => None,
            Some(ptr) => match c_string_at(initial_memory(b), ptr as int) {
                None => None,
                Some(sb) => if valid_utf8(sb) {
                    parse_schema_text(decode_utf8(sb))
                } else {
                    None
                },
            },
        }
    }
}

/// When a load succeeds: the bytes compile, instantiate with only the
/// `env.render` import satisfied and no start function, export the callback
/// and the memory, declare a readable schema, and the callback's signature
/// matches it — parameters position by position, no results.
pub open spec fn loads(b: Seq<u8>) -> bool {
    &&& compiles(b)
    &&& instantiable(b)
    &&& !has_start(b)
    &&& fn_export(b, callback_name())
    &&& mem_export(b, "memory"@)
    &&& (schema_of(b) matches Some(sch) && export_fn_params(b, callback_name()) == expected_kinds(
        sch,
    ))
    &&& export_fn_results(b, callback_name()).len() == 0
}

/// Law: for a fixed session, the time argument is monotonically
/// non-decreasing across consecutive steps.  Every time slot of a step's
/// argument list carries the session's `last_time_bits` (the ensures of
/// [`Wasm::parameters_at`]), [`Wasm::render`] never decreases that field,
/// and the session invariant keeps its sign bit clear — and on sign-clear
/// bit patterns the unsigned order of the patterns is the order of the
/// 64-bit floats they encode.
pub proof fn lemma_time_argument_monotone(s: Wasm, i: int, t1: u64, t2: u64)
    requires
        s.wf(),
        0 <= i < s.spec_schema().len(),
        s.spec_schema()[i] is Time,
        t1 <= t2,
    ensures
        marshal_at(s.spec_schema()[i], s.spec_overrides()[i], t1) == Value::F64Bits(t1),
        marshal_at(s.spec_schema()[i], s.spec_overrides()[i], t2) == Value::F64Bits(t2),
{
}

/// A loaded and validated guest module, driven frame by frame.
#[derive(Debug)]
pub struct Wasm {
    store: wasmi::Store<String>,
    callback: wasmi::Func,
    callback_ty: wasmi::FuncType,
    schema: Schema,
    created_at: web_time::Instant,
    overrides: Vec<Option<Value>>,
    failed: bool,
    last_time_bits: u64,
}

impl Wasm {
    /// The session invariant, established once by a successful load: the
    /// callback belongs to the session's own store; its declared parameters
    /// equal, position by position, the kinds the schema demands; it
    /// declares no results; there is one override slot per schema position,
    /// each well-typed; and the last time value handed out is a non-negative
    /// float's bit pattern.
    pub closed spec fn wf(self) -> bool {
        &&& func_store(self.callback) == store_id(self.store)
        &&& params_of(self.callback_ty) == expected_kinds(self.schema@)
        &&& results_of(self.callback_ty).len() == 0
        &&& self.overrides@.len() == self.schema@.len()
        &&& forall|i: int|
            0 <= i < self.schema@.len() ==> override_ok(
                self.schema@[i],
                #[trigger] self.overrides@[i],
            )
        &&& self.last_time_bits < 0x8000000000000000u64
    }

    /// The schema the guest declared.
    pub closed spec fn spec_schema(self) -> Seq<SchemaType> {
        self.schema@
    }

    /// The sticky failure flag.
    pub closed spec fn spec_failed(self) -> bool {
        self.failed
    }

    /// The captured output: what the guest most recently delivered through
    /// the `render` import (empty until the first delivery).
    pub closed spec fn spec_output(self) -> Seq<char> {
        captured(self.store)
    }

    /// The override table, one slot per schema position.
    pub closed spec fn spec_overrides(self) -> Seq<Option<Value>> {
        self.overrides@
    }

    /// The bit pattern of the time value most recently passed to the guest.
    pub closed spec fn spec_last_time_bits(self) -> u64 {
        self.last_time_bits
    }
}

/// Check the guest's callback signature against its declared schema: the
/// parameters must match the schema's kinds exactly, and the callback must
/// declare no results; a mismatch reports both sequences verbatim.
pub fn check_abi(
    schema: &Schema,
    actual_params: &Vec<ValueKind>,
    actual_results: &Vec<ValueKind>,
) -> (r: Result<(), LoadError>)
    ensures
        match r {
            Ok(()) => actual_params@ == expected_kinds(schema@) && actual_results@.len() == 0,
            Err(e) => {
                &&& (actual_params@ != expected_kinds(schema@) || actual_results@.len() != 0)
                &&& (actual_params@ != expected_kinds(schema@) ==> (e matches
                    LoadError::SchemaMismatch { expected, actual } && expected@ == expected_kinds(
                    schema@,
                ) && actual@ == actual_params@))
                &&& (actual_params@ == expected_kinds(schema@) ==> e is InvalidSignature)
            },
        },
{
    let expected = expected_params(schema);
    if !kinds_equal(&expected, actual_params) {
        return Err(LoadError::SchemaMismatch { expected, actual: clone_kinds(actual_params) });
    }
    if actual_results.len() != 0 {
        return Err(LoadError::InvalidSignature);
    }
    Ok(())
}

/// Decide whether two kind sequences are equal, position by position.
fn kinds_equal(a: &Vec<ValueKind>, b: &Vec<ValueKind>) -> (r: bool)
    ensures
        r == (a@ == b@),
{
    if a.len() != b.len() {
        proof {
            assert(a@ != b@);
        }
        return false;
    }
    let mut i: usize = 0;
    while i < a.len()
        invariant
            i <= a@.len(),
            a@.len() == b@.len(),
            forall|k: int| 0 <= k < i ==> a@[k] == b@[k],
        decreases a@.len() - i,
    {
        if a[i] != b[i] {
            proof {
                assert(a@[i as int] != b@[i as int]);
            }
            return false;
        }
        i = i + 1;
    }
    proof {
        assert(a@ =~= b@);
    }
    true
}

/// Copy a kind sequence.
fn clone_kinds(v: &Vec<ValueKind>) -> (r: Vec<ValueKind>)
    ensures
        r@ == v@,
{
    let mut out: Vec<ValueKind> = Vec::new();
    let mut i: usize = 0;
    while i < v.len()
        invariant
            i <= v@.len(),
            out@ == v@.subrange(0, i as int),
        decreases v@.len() - i,
    {
        out.push(v[i]);
        i = i + 1;
        proof {
            assert(out@ =~= v@.subrange(0, i as int));
        }
    }
    proof {
        assert(v@.subrange(0, v@.len() as int) =~= v@);
    }
    out
}

impl Wasm {
    /// Load a guest module from raw bytecode and validate its ABI, in this
    /// order: compile; register the one `env.render` import; instantiate,
    /// refusing a start function; require the `request_animation_frame` and
    /// `memory` exports; read and decode the optional `SCHEMA` global (no
    /// global means the empty schema); check the callback's signature
    /// against the schema.  The first failing step aborts the load with its
    /// own error category; success is owed exactly when [`loads`] holds of
    /// the bytes, and the session then starts unfailed, with no overrides
    /// and no captured output.
    pub fn new(bytes: &[u8]) -> (r: Result<Wasm, LoadError>)
        ensures
            r is Ok <==> loads(bytes@),
            match r {
                Ok(s) => {
                    &&& s.wf()
                    &&& !s.spec_failed()
                    &&& s.spec_output() == Seq::<char>::empty()
                    &&& forall|i: int|
                        0 <= i < s.spec_overrides().len() ==> s.spec_overrides()[i] is None
                    &&& s.spec_overrides().len() == s.spec_schema().len()
                    &&& s.spec_last_time_bits() == 0
                    &&& schema_of(bytes@) == Some(s.spec_schema())
                    &&& expected_kinds(s.spec_schema()) == export_fn_params(
                        bytes@,
                        callback_name(),
                    )
                },
                Err(e) => match e {
                    LoadError::Malformed(_) => !compiles(bytes@),
                    LoadError::InstantiateError(_) => compiles(bytes@) && (!instantiable(bytes@)
                        || has_start(bytes@)),
                    LoadError::MissingExport(n) => compiles(bytes@) && instantiable(bytes@)
                        && !has_start(bytes@) && ((n@ == callback_name() && !fn_export(
                        bytes@,
                        callback_name(),
                    )) || (n@ == "memory"@ && fn_export(bytes@, callback_name()) && !mem_export(
                        bytes@,
                        "memory"@,
                    ))),
                    LoadError::SchemaError(_) => compiles(bytes@) && instantiable(bytes@)
                        && !has_start(bytes@) && fn_export(bytes@, callback_name()) && mem_export(
                        bytes@,
                        "memory"@,
                    ) && schema_of(bytes@) is None,
                    LoadError::SchemaMismatch { expected, actual } => compiles(bytes@)
                        && instantiable(bytes@) && !has_start(bytes@) && fn_export(
                        bytes@,
                        callback_name(),
                    ) && mem_export(bytes@, "memory"@) && (schema_of(bytes@) matches Some(sch)
                        && expected@ == expected_kinds(sch) && actual@ == export_fn_params(
                        bytes@,
                        callback_name(),
                    ) && expected@ != actual@),
                    LoadError::InvalidSignature => compiles(bytes@) && instantiable(bytes@)
                        && !has_start(bytes@) && fn_export(bytes@, callback_name()) && mem_export(
                        bytes@,
                        "memory"@,
                    ) && (schema_of(bytes@) matches Some(sch) && expected_kinds(sch)
                        == export_fn_params(bytes@, callback_name())) && export_fn_results(
                        bytes@,
                        callback_name(),
                    ).len() != 0,
                },
            },
    {
        let engine = engine_default();
        let module = match module_compile(&engine, bytes) {
            Ok(m) => m,
            Err(e) => {
                return Err(LoadError::Malformed(error_text(&e)));
            },
        };
        let mut store = store_new(&engine);
        let mut linker = linker_new(&engine);
        if let Err(e) = linker_define_render(&mut linker) {
            return Err(LoadError::InstantiateError(error_text(&e)));
        }
        let pre = match linker_instantiate(&linker, &mut store, &module) {
            Ok(p) => p,
            Err(e) => {
                return Err(LoadError::InstantiateError(error_text(&e)));
            },
        };
        let instance = match instance_no_start(pre, &mut store) {
            Ok(i) => i,
            Err(e) => {
                return Err(LoadError::InstantiateError(error_text(&e)));
            },
        };
        let callback = match instance_func(&instance, &store, "request_animation_frame") {
            Some(f) => f,
            None => {
                return Err(LoadError::MissingExport("request_animation_frame".to_owned()));
            },
        };
        let callback_ty = func_type(&callback, &store);
        let memory = match instance_memory(&instance, &store, "memory") {
            Some(m) => m,
            None => {
                return Err(LoadError::MissingExport("memory".to_owned()));
            },
        };
        let schema: Schema = match instance_global(&instance, &store, "SCHEMA") {
            Some(g) => {
                let ptr = match global_i32(&g, &store) {
                    Some(p) => p,
                    None => {
                        return Err(
                            LoadError::SchemaError("SCHEMA must be a 32-bit integer".to_owned()),
                        );
                    },
                };
                let data = memory_data(&memory, &store);
                let cbytes = match scan_c_string(data, ptr) {
                    Some(b) => b,
                    None => {
                        return Err(
                            LoadError::SchemaError(
                                "SCHEMA must point at a null-terminated string inside memory"
                                    .to_owned(),
                            ),
                        );
                    },
                };
                let schema_text = match utf8_to_string(cbytes) {
                    Some(t) => t,
                    None => {
                        return Err(LoadError::SchemaError("SCHEMA must be valid UTF-8".to_owned()));
                    },
                };
                let chars = chars_vec(schema_text.as_str());
                match decode_schema_chars(&chars) {
                    Ok(s) => s,
                    Err(_) => {
                        return Err(LoadError::SchemaError("invalid schema JSON".to_owned()));
                    },
                }
            },
            None => {
                let empty: Schema = Vec::new();
                proof {
                    assert(empty@ =~= Seq::<SchemaType>::empty());
                }
                empty
            },
        };
        let actual_params = func_type_params(&callback_ty);
        let actual_results = func_type_results(&callback_ty);
        match check_abi(&schema, &actual_params, &actual_results) {
            Ok(()) => {},
            Err(e) => {
                return Err(e);
            },
        }
        let mut overrides: Vec<Option<Value>> = Vec::new();
        let mut i: usize = 0;
        while i < schema.len()
            invariant
                i <= schema@.len(),
                overrides@.len() == i,
                forall|k: int| 0 <= k < i ==> overrides@[k] is None,
            decreases schema@.len() - i,
        {
            overrides.push(None);
            i = i + 1;
        }
        Ok(
            Wasm {
                store,
                callback,
                callback_ty,
                schema,
                created_at: instant_now(),
                overrides,
                failed: false,
                last_time_bits: 0,
            },
        )
    }

    /// The schema the guest declared.
    pub fn schema(&self) -> (r: &Schema)
        ensures
            r@ == self.spec_schema(),
    {
        &self.schema
    }

    /// Store an override for one schema position.  The position must exist,
    /// must not be the time slot, and the value must carry the position's
    /// kind; anything else is refused and the session is unchanged.
    pub fn set_parameter(&mut self, index: usize, value: Value) -> (r: bool)
        requires
            old(self).wf(),
        ensures
            final(self).wf(),
            r == (index < old(self).spec_schema().len()
                && !(old(self).spec_schema()[index as int] is Time)
                && value.spec_kind() == old(self).spec_schema()[index as int].spec_value_kind()),
            r ==> final(self).spec_overrides() == old(self).spec_overrides().update(
                index as int,
                Some(value),
            ),
            !r ==> final(self).spec_overrides() == old(self).spec_overrides(),
            final(self).spec_schema() == old(self).spec_schema(),
            final(self).spec_failed() == old(self).spec_failed(),
            final(self).spec_output() == old(self).spec_output(),
            final(self).spec_last_time_bits() == old(self).spec_last_time_bits(),
    {
        if index >= self.schema.len() {
            return false;
        }
        let kind_wanted = self.schema[index].to_value_kind();
        let is_time = match self.schema[index] {
            SchemaType::Time => true,
            _ => false,
        };
        if is_time {
            return false;
        }
        if value.kind() != kind_wanted {
            return false;
        }
        self.overrides.set(index, Some(value));
        true
    }

    /// The callback argument list for one step: one value per schema
    /// position, the time slot carrying `time_bits`, range slots their
    /// override or default.
    pub fn parameters_at(&self, time_bits: u64) -> (r: Vec<Value>)
        requires
            self.wf(),
        ensures
            r@.len() == self.spec_schema().len(),
            forall|i: int|
                0 <= i < self.spec_schema().len() ==> r@[i] == marshal_at(
                    self.spec_schema()[i],
                    self.spec_overrides()[i],
                    time_bits,
                ),
    {
        let mut out: Vec<Value> = Vec::new();
        let mut i: usize = 0;
        while i < self.schema.len()
            invariant
                self.wf(),
                i <= self.spec_schema().len(),
                out@.len() == i,
                forall|k: int|
                    0 <= k < i ==> out@[k] == marshal_at(
                        self.spec_schema()[k],
                        self.spec_overrides()[k],
                        time_bits,
                    ),
            decreases self.spec_schema().len() - i,
        {
            let v = match self.schema[i] {
                SchemaType::Time => Value::F64Bits(time_bits),
                SchemaType::RangeF32 { min: _, max: _, default } => {
                    match &self.overrides[i] {
                        Some(o) => *o,
                        None => Value::F32Bits(default),
                    }
                },
                SchemaType::RangeI32 { min: _, max: _, default } => {
                    match &self.overrides[i] {
                        Some(o) => *o,
                        None => Value::I32(default),
                    }
                },
            };
            out.push(v);
            i = i + 1;
        }
        out
    }

    /// Run one render step.  A failed session is terminal: the guest is not
    /// touched and the last captured output is returned unchanged.
    /// Otherwise the callback is invoked with the marshaled arguments — the
    /// time argument never decreasing from step to step — and whatever the
    /// engine then holds as captured output is returned; if the invocation
    /// trapped, the session is failed from now on.
    pub fn render(&mut self) -> (r: String)
        requires
            old(self).wf(),
        ensures
            final(self).wf(),
            r@ == final(self).spec_output(),
            final(self).spec_schema() == old(self).spec_schema(),
            final(self).spec_overrides() == old(self).spec_overrides(),
            old(self).spec_failed() ==> *final(self) == *old(self),
            old(self).spec_failed() ==> final(self).spec_failed(),
            final(self).spec_last_time_bits() >= old(self).spec_last_time_bits(),
    {
        if self.failed {
            return crate::engine::store_output(&self.store);
        }
        let raw = elapsed_seconds_bits(&self.created_at);
        let t = if raw >= self.last_time_bits {
            raw
        } else {
            self.last_time_bits
        };
        self.last_time_bits = t;
        let args = self.parameters_at(t);
        match call_callback(&self.callback, &mut self.store, &args) {
            Ok(()) => {},
            Err(_) => {
                self.failed = true;
            },
        }
        crate::engine::store_output(&self.store)
    }
}

} // verus!

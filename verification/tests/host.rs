use wasmhost::errors::LoadError;
use wasmhost::schema::{SchemaType, Value, ValueKind};
use wasmhost::session::Wasm;
use wat::parse_str;

const SIMPLE_WAT: &str = r#"
    (module
        (type (;0;) (func (param i32)))
        (import "env" "render" (func (;0;) (type 0)))
        (global $SCHEMA (export "SCHEMA") i32 i32.const 1)
        (memory (export "memory") 1)
        (data (i32.const 1) "[{\"type\":\"time\"}]\00")
        (func (export "request_animation_frame") (param f64))
    )"#;

const ACTUAL_WAT: &str = r#"
    (module
    (type (;0;) (func (param i32)))
    (type (;1;) (func))
    (import "env" "render" (func (;0;) (type 0)))
    (func (;1;) (type 1)
        i32.const 1048579
        call 0)
    (table (;0;) 1 1 funcref)
    (memory (;0;) 17)
    (global (;0;) (mut i32) (i32.const 1048576))
    (global (;1;) i32 (i32.const 1048576))
    (global (;2;) i32 (i32.const 1048592))
    (global (;3;) i32 (i32.const 1048592))
    (export "memory" (memory 0))
    (export "request_animation_frame" (func 1))
    (export "SCHEMA" (global 1))
    (export "__data_end" (global 2))
    (export "__heap_base" (global 3))
    (data (;0;) (i32.const 1048576) "[]\00Hello, world!"))"#;

const WAT_WITH_PARAMS: &str = r#"
    (module
        (type (;0;) (func (param i32)))
        (type (;1;) (func (param f32 i32)))
        (import "env" "render" (func (;0;) (type 0)))
        (global $SCHEMA (export "SCHEMA") i32 i32.const 1)
        (memory (export "memory") 1)
        (data (i32.const 1) "[{\"type\":\"range_f32\",\"min\":0.0,\"max\":1.0,\"default\":0.5},{\"type\":\"range_i32\",\"min\":0,\"max\":100,\"default\":50}]\00")
        (func (export "request_animation_frame") (param f32 i32))
    )"#;

#[test]
fn test_schema() {
    let wasm_bytes = parse_str(SIMPLE_WAT).unwrap();
    let wasm = Wasm::new(&wasm_bytes).unwrap();
    assert_eq!(wasm.schema().len(), 1);
    matches!(wasm.schema()[0], SchemaType::Time);
}

#[test]
fn minimal_schema() {
    let wasm_bytes = parse_str(ACTUAL_WAT).unwrap();
    let mut wasm = Wasm::new(&wasm_bytes).unwrap();
    assert!(wasm.schema().is_empty());
    assert_eq!(wasm.render(), "Hello, world!");
}

#[test]
fn test_schema_params_match() {
    let wasm_bytes = parse_str(WAT_WITH_PARAMS).unwrap();
    let wasm = Wasm::new(&wasm_bytes).unwrap();
    assert_eq!(wasm.schema().len(), 2);
    matches!(&wasm.schema()[0], SchemaType::RangeF32 { .. });
    matches!(&wasm.schema()[1], SchemaType::RangeI32 { .. });
}

#[test]
fn test_schema_params_mismatch() {
    let wat = r#"
        (module
            (type (;0;) (func (param i32)))
            (type (;1;) (func (param i32)))
            (import "env" "render" (func (;0;) (type 0)))
            (global $SCHEMA (export "SCHEMA") i32 i32.const 1)
            (memory (export "memory") 1)
            (data (i32.const 1) "[{\"type\":\"range_f32\",\"min\":0.0,\"max\":1.0,\"default\":0.5}]\00")
            (func (export "request_animation_frame") (param i32))
        )"#;
    let wasm_bytes = parse_str(wat).unwrap();
    let result = Wasm::new(&wasm_bytes);
    assert!(result.is_err());
    assert!(result
        .unwrap_err()
        .message()
        .contains("parameters don't match schema"));
}

#[test]
fn mismatch_message_reports_both_sequences() {
    let wat = r#"
        (module
            (type (;0;) (func (param i32)))
            (import "env" "render" (func (;0;) (type 0)))
            (global $SCHEMA (export "SCHEMA") i32 i32.const 1)
            (memory (export "memory") 1)
            (data (i32.const 1) "[{\"type\":\"range_f32\",\"min\":0.0,\"max\":1.0,\"default\":0.5},{\"type\":\"range_i32\",\"min\":0,\"max\":100,\"default\":50}]\00")
            (func (export "request_animation_frame") (param i32))
        )"#;
    let wasm_bytes = parse_str(wat).unwrap();
    let err = Wasm::new(&wasm_bytes).unwrap_err();
    let msg = err.message();
    assert!(msg.contains("parameters don't match schema"));
    assert!(msg.contains("Expected: [F32, I32]"));
    assert!(msg.contains("Got: [I32]"));
    match err {
        LoadError::SchemaMismatch { expected, actual } => {
            assert_eq!(expected, vec![ValueKind::F32, ValueKind::I32]);
            assert_eq!(actual, vec![ValueKind::I32]);
        }
        _ => panic!("wrong error variant"),
    }
}

#[test]
fn missing_memory_export_fails() {
    let wat = r#"
        (module
            (type (;0;) (func (param i32)))
            (import "env" "render" (func (;0;) (type 0)))
            (func (export "request_animation_frame"))
        )"#;
    let wasm_bytes = parse_str(wat).unwrap();
    match Wasm::new(&wasm_bytes) {
        Err(LoadError::MissingExport(name)) => assert_eq!(name, "memory"),
        _ => panic!("expected MissingExport"),
    }
}

#[test]
fn missing_callback_export_fails() {
    let wat = r#"
        (module
            (type (;0;) (func (param i32)))
            (import "env" "render" (func (;0;) (type 0)))
            (memory (export "memory") 1)
        )"#;
    let wasm_bytes = parse_str(wat).unwrap();
    match Wasm::new(&wasm_bytes) {
        Err(LoadError::MissingExport(name)) => assert_eq!(name, "request_animation_frame"),
        _ => panic!("expected MissingExport"),
    }
}

#[test]
fn no_schema_global_means_empty_schema() {
    let wat = r#"
        (module
            (type (;0;) (func (param i32)))
            (import "env" "render" (func (;0;) (type 0)))
            (memory (export "memory") 1)
            (func (export "request_animation_frame"))
        )"#;
    let wasm_bytes = parse_str(wat).unwrap();
    let wasm = Wasm::new(&wasm_bytes).unwrap();
    assert!(wasm.schema().is_empty());
}

#[test]
fn nonzero_arity_with_empty_schema_fails() {
    let wat = r#"
        (module
            (type (;0;) (func (param i32)))
            (import "env" "render" (func (;0;) (type 0)))
            (memory (export "memory") 1)
            (func (export "request_animation_frame") (param i32))
        )"#;
    let wasm_bytes = parse_str(wat).unwrap();
    match Wasm::new(&wasm_bytes) {
        Err(LoadError::SchemaMismatch { expected, actual }) => {
            assert!(expected.is_empty());
            assert_eq!(actual, vec![ValueKind::I32]);
        }
        _ => panic!("expected SchemaMismatch"),
    }
}

#[test]
fn callback_with_results_fails() {
    let wat = r#"
        (module
            (type (;0;) (func (param i32)))
            (import "env" "render" (func (;0;) (type 0)))
            (memory (export "memory") 1)
            (func (export "request_animation_frame") (result i32) i32.const 0)
        )"#;
    let wasm_bytes = parse_str(wat).unwrap();
    match Wasm::new(&wasm_bytes) {
        Err(LoadError::InvalidSignature) => {}
        _ => panic!("expected InvalidSignature"),
    }
}

#[test]
fn start_function_is_refused() {
    let wat = r#"
        (module
            (type (;0;) (func (param i32)))
            (import "env" "render" (func (;0;) (type 0)))
            (memory (export "memory") 1)
            (func $boot)
            (start $boot)
            (func (export "request_animation_frame"))
        )"#;
    let wasm_bytes = parse_str(wat).unwrap();
    match Wasm::new(&wasm_bytes) {
        Err(LoadError::InstantiateError(_)) => {}
        _ => panic!("expected InstantiateError"),
    }
}

#[test]
fn unresolved_import_is_refused() {
    let wat = r#"
        (module
            (type (;0;) (func (param i32)))
            (import "env" "render" (func (;0;) (type 0)))
            (import "env" "other" (func (;1;) (type 0)))
            (memory (export "memory") 1)
            (func (export "request_animation_frame"))
        )"#;
    let wasm_bytes = parse_str(wat).unwrap();
    match Wasm::new(&wasm_bytes) {
        Err(LoadError::InstantiateError(_)) => {}
        _ => panic!("expected InstantiateError"),
    }
}

#[test]
fn malformed_bytecode_is_refused() {
    let bytes = [0u8, 1, 2, 3, 4, 5, 6, 7];
    match Wasm::new(&bytes) {
        Err(LoadError::Malformed(_)) => {}
        _ => panic!("expected Malformed"),
    }
}

#[test]
fn schema_global_of_wrong_type_fails() {
    let wat = r#"
        (module
            (type (;0;) (func (param i32)))
            (import "env" "render" (func (;0;) (type 0)))
            (global $SCHEMA (export "SCHEMA") f32 f32.const 1)
            (memory (export "memory") 1)
            (func (export "request_animation_frame"))
        )"#;
    let wasm_bytes = parse_str(wat).unwrap();
    match Wasm::new(&wasm_bytes) {
        Err(LoadError::SchemaError(_)) => {}
        _ => panic!("expected SchemaError"),
    }
}

#[test]
fn schema_pointer_out_of_bounds_fails() {
    let wat = r#"
        (module
            (type (;0;) (func (param i32)))
            (import "env" "render" (func (;0;) (type 0)))
            (global $SCHEMA (export "SCHEMA") i32 i32.const -4)
            (memory (export "memory") 1)
            (func (export "request_animation_frame"))
        )"#;
    let wasm_bytes = parse_str(wat).unwrap();
    match Wasm::new(&wasm_bytes) {
        Err(LoadError::SchemaError(_)) => {}
        _ => panic!("expected SchemaError"),
    }
}

#[test]
fn schema_with_invalid_json_fails() {
    let wat = r#"
        (module
            (type (;0;) (func (param i32)))
            (import "env" "render" (func (;0;) (type 0)))
            (global $SCHEMA (export "SCHEMA") i32 i32.const 1)
            (memory (export "memory") 1)
            (data (i32.const 1) "[{\"type\":\"banana\"}]\00")
            (func (export "request_animation_frame"))
        )"#;
    let wasm_bytes = parse_str(wat).unwrap();
    match Wasm::new(&wasm_bytes) {
        Err(LoadError::SchemaError(_)) => {}
        _ => panic!("expected SchemaError"),
    }
}

#[test]
fn every_step_returns_what_the_guest_wrote() {
    // One time parameter; the callback always writes the same string.
    let wat = r#"
        (module
            (type (;0;) (func (param i32)))
            (import "env" "render" (func (;0;) (type 0)))
            (global $SCHEMA (export "SCHEMA") i32 i32.const 64)
            (memory (export "memory") 1)
            (data (i32.const 64) "[{\"type\":\"time\"}]\00")
            (data (i32.const 1) "Hello, world!\00")
            (func (export "request_animation_frame") (param f64)
                i32.const 1
                call 0)
        )"#;
    let wasm_bytes = parse_str(wat).unwrap();
    let mut wasm = Wasm::new(&wasm_bytes).unwrap();
    for _ in 0..5 {
        assert_eq!(wasm.render(), "Hello, world!");
    }
}

#[test]
fn trap_freezes_the_last_output() {
    // The guest writes once, then traps on the second step.
    let wat = r#"
        (module
            (type (;0;) (func (param i32)))
            (import "env" "render" (func (;0;) (type 0)))
            (memory (export "memory") 1)
            (global $called (mut i32) (i32.const 0))
            (data (i32.const 1) "first\00")
            (func (export "request_animation_frame")
                global.get $called
                i32.eqz
                (if
                    (then
                        i32.const 1
                        global.set $called
                        i32.const 1
                        call 0)
                    (else unreachable)))
        )"#;
    let wasm_bytes = parse_str(wat).unwrap();
    let mut wasm = Wasm::new(&wasm_bytes).unwrap();
    assert_eq!(wasm.render(), "first");
    assert_eq!(wasm.render(), "first");
    assert_eq!(wasm.render(), "first");
}

#[test]
fn trap_before_any_output_returns_empty() {
    let wat = r#"
        (module
            (type (;0;) (func (param i32)))
            (import "env" "render" (func (;0;) (type 0)))
            (memory (export "memory") 1)
            (func (export "request_animation_frame") unreachable)
        )"#;
    let wasm_bytes = parse_str(wat).unwrap();
    let mut wasm = Wasm::new(&wasm_bytes).unwrap();
    assert_eq!(wasm.render(), "");
    assert_eq!(wasm.render(), "");
}

#[test]
fn overrides_are_typed_and_positional() {
    let wasm_bytes = parse_str(WAT_WITH_PARAMS).unwrap();
    let mut wasm = Wasm::new(&wasm_bytes).unwrap();
    // Position 0 is a 32-bit float range, position 1 a 32-bit integer range.
    assert!(wasm.set_parameter(0, Value::F32Bits(0.75f32.to_bits())));
    assert!(!wasm.set_parameter(0, Value::I32(1)));
    assert!(wasm.set_parameter(1, Value::I32(42)));
    assert!(!wasm.set_parameter(2, Value::I32(0)));
    // The callback accepts the marshaled arguments; nothing was written, so
    // the captured output stays empty and the session is not failed.
    assert_eq!(wasm.render(), "");
    assert_eq!(wasm.render(), "");
}

#[test]
fn time_argument_is_not_overridable() {
    let wasm_bytes = parse_str(SIMPLE_WAT).unwrap();
    let mut wasm = Wasm::new(&wasm_bytes).unwrap();
    assert!(!wasm.set_parameter(0, Value::F64Bits(0)));
}

#[test]
fn render_import_with_bad_pointer_stores_placeholder() {
    // The guest hands `render` an offset past the end of its memory.
    let wat = r#"
        (module
            (type (;0;) (func (param i32)))
            (import "env" "render" (func (;0;) (type 0)))
            (memory (export "memory") 1)
            (func (export "request_animation_frame")
                i32.const 999999999
                call 0)
        )"#;
    let wasm_bytes = parse_str(wat).unwrap();
    let mut wasm = Wasm::new(&wasm_bytes).unwrap();
    assert_eq!(wasm.render(), "[invalid render output]");
}

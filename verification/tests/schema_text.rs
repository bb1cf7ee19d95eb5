use wasmhost::codec::SchemaTextError;
use wasmhost::schema::SchemaType;

#[test]
fn test_render_type_time_serialization() {
    let time = SchemaType::Time;
    let json = time.to_json();
    assert_eq!(json, r#"{"type":"time"}"#);
}

#[test]
fn test_render_type_time_deserialization() {
    let json = r#"{"type":"time"}"#;
    let time: SchemaType = SchemaType::from_json(json).unwrap();
    matches!(time, SchemaType::Time);
}

#[test]
fn test_render_type_range_f32_serialization() {
    let range = SchemaType::RangeF32 {
        min: 0.0f32.to_bits(),
        max: 100.0f32.to_bits(),
        default: 50.0f32.to_bits(),
    };
    let json = range.to_json();
    assert_eq!(
        json,
        r#"{"type":"range_f32","min":0.0,"max":100.0,"default":50.0}"#
    );
}

#[test]
fn test_render_type_range_f32_deserialization() {
    let json = r#"{"type":"range_f32","min":0.0,"max":100.0,"default":50.0}"#;
    let range: SchemaType = SchemaType::from_json(json).unwrap();
    match range {
        SchemaType::RangeF32 { min, max, default } => {
            assert_eq!(min, 0.0f32.to_bits());
            assert_eq!(max, 100.0f32.to_bits());
            assert_eq!(default, 50.0f32.to_bits());
        }
        _ => panic!("Wrong variant"),
    }
}

#[test]
fn test_render_type_range_i32_serialization() {
    let range = SchemaType::RangeI32 {
        min: 0,
        max: 100,
        default: 50,
    };
    let json = range.to_json();
    assert_eq!(json, r#"{"type":"range_i32","min":0,"max":100,"default":50}"#);
}

#[test]
fn test_render_type_range_i32_deserialization() {
    let json = r#"{"type":"range_i32","min":0,"max":100,"default":50}"#;
    let range: SchemaType = SchemaType::from_json(json).unwrap();
    match range {
        SchemaType::RangeI32 { min, max, default } => {
            assert_eq!(min, 0);
            assert_eq!(max, 100);
            assert_eq!(default, 50);
        }
        _ => panic!("Wrong variant"),
    }
}

#[test]
fn test_render_type_invalid_json() {
    let json = r#"{"type":"invalid_type"}"#;
    let result: Result<SchemaType, SchemaTextError> = SchemaType::from_json(json);
    assert!(result.is_err());
}

#[test]
fn round_trip_negative_and_exponent_numbers() {
    let range = SchemaType::RangeI32 {
        min: -2147483648,
        max: 2147483647,
        default: -7,
    };
    let back = SchemaType::from_json(&range.to_json()).unwrap();
    assert_eq!(back, range);

    let range = SchemaType::RangeF32 {
        min: (-0.5f32).to_bits(),
        max: 3.5e10f32.to_bits(),
        default: 0.25f32.to_bits(),
    };
    let back = SchemaType::from_json(&range.to_json()).unwrap();
    assert_eq!(back, range);
}

#[test]
fn decode_tolerates_whitespace_and_field_order() {
    let json = " { \"min\" : 1 , \"type\" : \"range_i32\" , \"default\" : 2 , \"max\" : 3 } ";
    let range = SchemaType::from_json(json).unwrap();
    assert_eq!(
        range,
        SchemaType::RangeI32 {
            min: 1,
            max: 3,
            default: 2
        }
    );
}

#[test]
fn decode_rejects_numbers_outside_the_json_grammar() {
    assert!(SchemaType::from_json(r#"{"type":"range_i32","min":007,"max":3,"default":0}"#).is_err());
    assert!(SchemaType::from_json(r#"{"type":"range_f32","min":.5,"max":3.0,"default":1.0}"#).is_err());
    assert!(SchemaType::from_json(r#"{"type":"range_f32","min":5.,"max":30.0,"default":1.0}"#).is_err());
    assert!(SchemaType::from_json(r#"{"type":"range_i32","min":+5,"max":30,"default":1}"#).is_err());
    assert!(SchemaType::from_json(r#"{"type":"range_f32","min":1e,"max":3.0,"default":1.0}"#).is_err());
    let ok = SchemaType::from_json(r#"{"type":"range_f32","min":-0.5,"max":3.5e10,"default":2E-2}"#);
    assert!(ok.is_ok());
}

#[test]
fn decode_rejects_unknown_duplicate_or_missing_fields() {
    assert!(SchemaType::from_json(r#"{"type":"time","extra":1}"#).is_err());
    assert!(SchemaType::from_json(r#"{"type":"range_i32","min":1,"min":2,"max":3,"default":0}"#).is_err());
    assert!(SchemaType::from_json(r#"{"type":"range_i32","min":1,"max":3}"#).is_err());
    assert!(SchemaType::from_json(r#"{"type":"range_i32","min":0.5,"max":3,"default":0}"#).is_err());
    assert!(SchemaType::from_json(r#"{"type":"time","min":0}"#).is_err());
    assert!(SchemaType::from_json(r#"{}"#).is_err());
}

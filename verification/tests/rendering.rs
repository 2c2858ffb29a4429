use cargo_contract::display::{TokenMetadata, Verbosity, balance_to_string, field_value_string};
use cargo_contract::events::{
    DisplayEvents, EventRecord, Field, FieldOutcome, FieldMetadata, RawField, Value,
};
use cargo_contract::text::{i128_to_string, u128_to_string, usize_to_string};

fn sample_events() -> DisplayEvents {
    let record = EventRecord {
        pallet: "Contracts".to_string(),
        name: "ContractEmitted".to_string(),
        fields: vec![
            RawField {
                metadata: FieldMetadata {
                    name: Some("contract".to_string()),
                    ty_id: 0,
                    ty_name: Some("T::AccountId".to_string()),
                },
                outcome: FieldOutcome::Decoded(Value::Str("5FHneW46...".to_string())),
            },
            RawField {
                metadata: FieldMetadata {
                    name: Some("data".to_string()),
                    ty_id: 1,
                    ty_name: Some("Vec<u8>".to_string()),
                },
                outcome: FieldOutcome::ContractData {
                    transcoded: None,
                    raw: vec![0xDE, 0xAD, 0xBE, 0xEF],
                },
            },
        ],
    };
    let transfer = EventRecord {
        pallet: "Balances".to_string(),
        name: "Transfer".to_string(),
        fields: vec![
            RawField {
                metadata: FieldMetadata {
                    name: Some("amount".to_string()),
                    ty_id: 2,
                    ty_name: Some("T::Balance".to_string()),
                },
                outcome: FieldOutcome::Decoded(Value::UInt(1_500_000)),
            },
            RawField {
                metadata: FieldMetadata {
                    name: None,
                    ty_id: 3,
                    ty_name: None,
                },
                outcome: FieldOutcome::Decoded(Value::Int(-7)),
            },
        ],
    };
    DisplayEvents::from_events(&vec![record, transfer]).unwrap()
}

#[test]
fn decimal_renderings_are_exact() {
    assert_eq!(u128_to_string(0), "0");
    assert_eq!(u128_to_string(12345), "12345");
    assert_eq!(u128_to_string(u128::MAX), "340282366920938463463374607431768211455");
    assert_eq!(usize_to_string(42), "42");
    assert_eq!(i128_to_string(-12), "-12");
    assert_eq!(i128_to_string(7), "7");
    assert_eq!(i128_to_string(i128::MIN), "-170141183460469231731687303715884105728");
}

#[test]
fn balance_formatting_uses_symbol_and_decimals() {
    let token = TokenMetadata { symbol: "UNIT".to_string(), decimals: 4 };
    assert_eq!(balance_to_string(1234567, &token), "123.4567 UNIT");
    assert_eq!(balance_to_string(5, &token), "0.0005 UNIT");
    let whole = TokenMetadata { symbol: "DOT".to_string(), decimals: 0 };
    assert_eq!(balance_to_string(9, &whole), "9 DOT");
}

#[test]
fn balance_typed_fields_are_reformatted_for_display() {
    let token = TokenMetadata { symbol: "UNIT".to_string(), decimals: 6 };
    let balance_field = Field::new(
        "amount".to_string(),
        Value::UInt(2_500_000),
        Some("BalanceOf<T>".to_string()),
    );
    assert_eq!(field_value_string(&balance_field, &token), "2.500000 UNIT");
    let plain_field = Field::new(
        "amount".to_string(),
        Value::UInt(2_500_000),
        Some("u128".to_string()),
    );
    assert_eq!(field_value_string(&plain_field, &token), "2500000");
    let hex_field = Field::new(
        "data".to_string(),
        Value::Hex("deadbeef".to_string()),
        Some("T::Balance".to_string()),
    );
    assert_eq!(field_value_string(&hex_field, &token), "0xdeadbeef");
}

#[test]
fn listing_shows_headers_and_verbose_fields() {
    let token = TokenMetadata { symbol: "UNIT".to_string(), decimals: 6 };
    let display = sample_events();
    let quiet = display.display_events(Verbosity::Quiet, &token).unwrap();
    assert!(quiet.contains("Events"));
    assert!(quiet.contains("Contracts"));
    assert!(quiet.contains("Transfer"));
    assert!(!quiet.contains("amount"));
    let verbose = display.display_events(Verbosity::Verbose, &token).unwrap();
    assert!(verbose.contains("amount"));
    assert!(verbose.contains("1.500000 UNIT"));
    assert!(verbose.contains("0xdeadbeef"));
    assert!(verbose.contains("-7"));
}

#[test]
fn listing_has_one_line_per_event_and_per_verbose_field() {
    let token = TokenMetadata { symbol: "UNIT".to_string(), decimals: 6 };
    let display = sample_events();
    let quiet = display.display_events(Verbosity::Quiet, &token).unwrap();
    // Header plus one line for each of the two events.
    assert_eq!(quiet.matches('\n').count(), 3);
    let verbose = display.display_events(Verbosity::Verbose, &token).unwrap();
    // Header, two event lines, and two field lines per event.
    assert_eq!(verbose.matches('\n').count(), 7);
}

#[test]
fn json_output_is_exact_for_a_simple_log() {
    let record = EventRecord {
        pallet: "Balances".to_string(),
        name: "Transfer".to_string(),
        fields: vec![RawField {
            metadata: FieldMetadata {
                name: Some("amount".to_string()),
                ty_id: 0,
                ty_name: Some("T::Balance".to_string()),
            },
            outcome: FieldOutcome::Decoded(Value::UInt(7)),
        }],
    };
    let display = DisplayEvents::from_events(&vec![record]).unwrap();
    let json = display.to_json().unwrap();
    let expected = "[\n  {\n    \"pallet\": \"Balances\",\n    \"name\": \"Transfer\",\n    \"fields\": [\n      {\n        \"name\": \"amount\",\n        \"value\": 7\n      }\n    ]\n  }\n]";
    assert_eq!(json, expected);
}

#[test]
fn json_round_trip_preserves_content_and_drops_type_names() {
    let display = sample_events();
    let json = display.to_json().unwrap();
    let parsed: serde_json::Value = serde_json::from_str(&json).unwrap();
    let events = parsed.as_array().unwrap();
    assert_eq!(events.len(), 2);
    assert_eq!(events[0]["pallet"], "Contracts");
    assert_eq!(events[0]["name"], "ContractEmitted");
    let fields = events[0]["fields"].as_array().unwrap();
    assert_eq!(fields.len(), 2);
    assert_eq!(fields[0]["name"], "contract");
    assert_eq!(fields[0]["value"], "5FHneW46...");
    assert_eq!(fields[1]["name"], "data");
    assert_eq!(fields[1]["value"], "0xdeadbeef");
    assert!(fields[1].get("ty_name").is_none());
    assert!(fields[1].get("type_name").is_none());
    let transfer_fields = events[1]["fields"].as_array().unwrap();
    assert_eq!(transfer_fields[0]["name"], "amount");
    assert_eq!(transfer_fields[0]["value"], 1_500_000);
    assert_eq!(transfer_fields[1]["name"], "0");
    assert_eq!(transfer_fields[1]["value"], -7);
}

#[test]
fn json_escapes_special_characters() {
    let record = EventRecord {
        pallet: "A\"B\\C".to_string(),
        name: "line\nbreak\ttab".to_string(),
        fields: vec![],
    };
    let display = DisplayEvents::from_events(&vec![record]).unwrap();
    let json = display.to_json().unwrap();
    let parsed: serde_json::Value = serde_json::from_str(&json).unwrap();
    assert_eq!(parsed[0]["pallet"], "A\"B\\C");
    assert_eq!(parsed[0]["name"], "line\nbreak\ttab");
}

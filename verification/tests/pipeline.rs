use cargo_contract::events::{
    DecodePlan, DisplayEvents, EventRecord, FieldMetadata, FieldOutcome, RawField, Value,
    contract_event_data_field, field_decode_plan, is_contract_emitted,
};

fn meta(name: Option<&str>, ty_id: u32, ty_name: Option<&str>) -> FieldMetadata {
    FieldMetadata {
        name: name.map(|s| s.to_string()),
        ty_id,
        ty_name: ty_name.map(|s| s.to_string()),
    }
}

fn decoded(name: Option<&str>, v: Value) -> RawField {
    RawField {
        metadata: meta(name, 0, None),
        outcome: FieldOutcome::Decoded(v),
    }
}

#[test]
fn contract_emitted_is_the_exact_pallet_and_variant_pair() {
    assert!(is_contract_emitted("Contracts", "ContractEmitted"));
    assert!(!is_contract_emitted("Contracts", "Instantiated"));
    assert!(!is_contract_emitted("Balances", "ContractEmitted"));
    assert!(!is_contract_emitted("contracts", "ContractEmitted"));
}

#[test]
fn only_the_data_field_of_a_contract_emitted_record_is_special() {
    let data = meta(Some("data"), 7, None);
    let other = meta(Some("contract"), 9, None);
    let unnamed = meta(None, 9, None);
    assert!(matches!(
        field_decode_plan("Contracts", "ContractEmitted", &data),
        DecodePlan::ContractData
    ));
    assert!(matches!(
        field_decode_plan("Contracts", "ContractEmitted", &other),
        DecodePlan::Generic(9)
    ));
    assert!(matches!(
        field_decode_plan("Contracts", "ContractEmitted", &unnamed),
        DecodePlan::Generic(9)
    ));
    assert!(matches!(
        field_decode_plan("Balances", "Transfer", &data),
        DecodePlan::Generic(7)
    ));
}

#[test]
fn data_field_without_transcoder_falls_back_to_hex() {
    let field = contract_event_data_field(None, &vec![0xDE, 0xAD, 0xBE, 0xEF], &None);
    assert_eq!(field.name, "data");
    assert!(matches!(field.value, Value::Hex(ref h) if h == "deadbeef"));
}

#[test]
fn data_field_keeps_the_transcoded_value_when_one_is_given() {
    let field = contract_event_data_field(
        Some(Value::Str("transferred".to_string())),
        &vec![0xDE, 0xAD],
        &Some("T::Event".to_string()),
    );
    assert_eq!(field.name, "data");
    assert!(matches!(field.value, Value::Str(ref s) if s == "transferred"));
    assert_eq!(field.ty_name, Some("T::Event".to_string()));
}

#[test]
fn contract_emitted_record_without_transcoder_yields_hex_data() {
    let record = EventRecord {
        pallet: "Contracts".to_string(),
        name: "ContractEmitted".to_string(),
        fields: vec![
            decoded(Some("contract"), Value::Str("5FHne...".to_string())),
            RawField {
                metadata: meta(Some("data"), 3, Some("Vec<u8>")),
                outcome: FieldOutcome::ContractData {
                    transcoded: None,
                    raw: vec![0xDE, 0xAD, 0xBE, 0xEF],
                },
            },
        ],
    };
    let display = DisplayEvents::from_events(&vec![record]).unwrap();
    let events = display.events();
    assert_eq!(events.len(), 1);
    assert_eq!(events[0].pallet, "Contracts");
    assert_eq!(events[0].name, "ContractEmitted");
    assert_eq!(events[0].fields.len(), 2);
    assert_eq!(events[0].fields[1].name, "data");
    assert!(matches!(events[0].fields[1].value, Value::Hex(ref h) if h == "deadbeef"));
}

#[test]
fn failed_transcoder_falls_back_to_hex_and_the_pass_continues() {
    let failing = EventRecord {
        pallet: "Contracts".to_string(),
        name: "ContractEmitted".to_string(),
        fields: vec![RawField {
            metadata: meta(Some("data"), 3, None),
            // A transcoder was supplied but rejected the payload, so no
            // transcoded value is available.
            outcome: FieldOutcome::ContractData {
                transcoded: None,
                raw: vec![0x01, 0x02],
            },
        }],
    };
    let next = EventRecord {
        pallet: "Balances".to_string(),
        name: "Transfer".to_string(),
        fields: vec![decoded(Some("amount"), Value::UInt(5))],
    };
    let display = DisplayEvents::from_events(&vec![failing, next]).unwrap();
    let events = display.events();
    assert_eq!(events.len(), 2);
    assert!(matches!(events[0].fields[0].value, Value::Hex(ref h) if h == "0102"));
    assert_eq!(events[1].pallet, "Balances");
}

#[test]
fn field_count_and_order_are_preserved() {
    let record = EventRecord {
        pallet: "Balances".to_string(),
        name: "Transfer".to_string(),
        fields: vec![
            decoded(Some("from"), Value::Str("a".to_string())),
            decoded(Some("to"), Value::Str("b".to_string())),
            decoded(Some("amount"), Value::UInt(41)),
        ],
    };
    let display = DisplayEvents::from_events(&vec![record]).unwrap();
    let fields = &display.events()[0].fields;
    assert_eq!(fields.len(), 3);
    assert_eq!(fields[0].name, "from");
    assert_eq!(fields[1].name, "to");
    assert_eq!(fields[2].name, "amount");
    assert!(matches!(fields[2].value, Value::UInt(41)));
}

#[test]
fn unnamed_fields_take_positional_names_resetting_per_record() {
    let first = EventRecord {
        pallet: "System".to_string(),
        name: "Remarked".to_string(),
        fields: vec![
            decoded(None, Value::UInt(10)),
            decoded(Some("who"), Value::Str("x".to_string())),
            decoded(None, Value::UInt(20)),
            decoded(None, Value::UInt(30)),
        ],
    };
    let second = EventRecord {
        pallet: "System".to_string(),
        name: "Remarked".to_string(),
        fields: vec![decoded(None, Value::Bool(true)), decoded(None, Value::Bool(false))],
    };
    let display = DisplayEvents::from_events(&vec![first, second]).unwrap();
    let events = display.events();
    assert_eq!(events[0].fields[0].name, "0");
    assert_eq!(events[0].fields[1].name, "who");
    assert_eq!(events[0].fields[2].name, "1");
    assert_eq!(events[0].fields[3].name, "2");
    assert_eq!(events[1].fields[0].name, "0");
    assert_eq!(events[1].fields[1].name, "1");
}

#[test]
fn a_rejected_field_aborts_the_whole_pass_with_its_message() {
    let bad = EventRecord {
        pallet: "Balances".to_string(),
        name: "Transfer".to_string(),
        fields: vec![
            decoded(Some("from"), Value::Str("a".to_string())),
            RawField {
                metadata: meta(Some("amount"), 4, None),
                outcome: FieldOutcome::Failed("type 4 not found in metadata".to_string()),
            },
        ],
    };
    let err = DisplayEvents::from_events(&vec![bad]).unwrap_err();
    assert_eq!(err.message().as_str(), "type 4 not found in metadata");
}

#[test]
fn an_empty_log_decodes_to_no_events() {
    let display = DisplayEvents::from_events(&vec![]).unwrap();
    assert_eq!(display.events().len(), 0);
}

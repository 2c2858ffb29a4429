//! Decoding of a transaction's raw event log into structured, displayable
//! events.
//!
//! The log arrives as one record per emitted event: the emitting pallet, the
//! event variant, and, per declared field, its metadata together with the
//! outcome the external schema decoder produced for that field's bytes. This
//! module owns every decision over those inputs: which field is the
//! special-cased contract payload, how unnamed fields are numbered, when hex
//! fallback applies and when a failure aborts the whole pass.
use vstd::prelude::*;

use crate::config::{ErrorVariant, GenericError};
use crate::text::{dec_str, hex_encode, hex_str, str_eq, usize_to_string};

verus! {

/// A decoded, dynamically-typed value of an event field.
#[derive(Debug)]
pub enum Value {
    /// A boolean.
    Bool(bool),
    /// An unsigned integer.
    UInt(u128),
    /// A signed integer.
    Int(i128),
    /// A text string.
    Str(String),
    /// An undecoded byte string, kept as lowercase hexadecimal digits.
    Hex(String),
}

impl Clone for Value {
    fn clone(&self) -> (r: Self)
        ensures
            r == *self,
    {
        match self {
            Value::Bool(b) => Value::Bool(*b),
            Value::UInt(u) => Value::UInt(*u),
            Value::Int(i) => Value::Int(*i),
            Value::Str(s) => Value::Str(s.clone()),
            Value::Hex(h) => Value::Hex(h.clone()),
        }
    }
}

/// Clones an optional string, keeping its value.
fn clone_opt_string(o: &Option<String>) -> (r: Option<String>)
    ensures
        r == *o,
{
    match o {
        Some(s) => Some(s.clone()),
        None => None,
    }
}

/// Field that represents data of an event from invoking a contract extrinsic.
#[derive(Debug)]
pub struct Field {
    /// name of a field
    pub name: String,
    /// value of a field
    pub value: Value,
    /// The name of a type as defined in the pallet source code
    pub ty_name: Option<String>,
}

impl Field {
    /// Builds a field from its parts.
    pub fn new(name: String, value: Value, ty_name: Option<String>) -> (r: Self)
        ensures
            r.name == name,
            r.value == value,
            r.ty_name == ty_name,
    {
        Field { name, value, ty_name }
    }
}

/// An event produced from invoking a contract extrinsic.
#[derive(Debug)]
pub struct Event {
    /// name of a pallet
    pub pallet: String,
    /// name of the event
    pub name: String,
    /// data associated with the event
    pub fields: Vec<Field>,
}

/// The declared shape of one event field, as the network's type metadata
/// gives it: an optional field name, the numeric identifier of the field's
/// type, and an optional declared type name.
#[derive(Debug)]
pub struct FieldMetadata {
    /// The field's declared name, if the variant names its fields.
    pub name: Option<String>,
    /// The numeric identifier of the field's type in the metadata.
    pub ty_id: u32,
    /// The declared type name, used only for display-time special casing.
    pub ty_name: Option<String>,
}

/// What the external decoders produced for one field of a record.
#[derive(Debug)]
pub enum FieldOutcome {
    /// The generic schema decoder produced a value for this field's bytes.
    Decoded(Value),
    /// The generic schema decoder rejected this field's bytes; the message
    /// describes the failure. This aborts the whole decode pass.
    Failed(String),
    /// The field is the opaque contract payload: `transcoded` holds the
    /// contract transcoder's value when one was supplied and it succeeded,
    /// and `raw` holds the field's raw bytes for the hex fallback.
    ContractData { transcoded: Option<Value>, raw: Vec<u8> },
}

/// One raw record of the event log: a field's declared metadata next to the
/// outcome the external decoders produced for it.
#[derive(Debug)]
pub struct RawField {
    /// The field's declared shape.
    pub metadata: FieldMetadata,
    /// What the external decoders made of the field's bytes.
    pub outcome: FieldOutcome,
}

/// One emitted record of the event log.
#[derive(Debug)]
pub struct EventRecord {
    /// Name of the emitting pallet.
    pub pallet: String,
    /// Name of the event variant.
    pub name: String,
    /// The record's fields, in declared order.
    pub fields: Vec<RawField>,
}

/// How one field of a record is to be decoded.
#[derive(Debug)]
pub enum DecodePlan {
    /// The field is the special-cased contract payload: hand the remaining
    /// bytes to the contract transcoder, falling back to hex.
    ContractData,
    /// Decode the field generically against the type with this identifier.
    Generic(u32),
}

/// Whether a record identifies as the well-known contract-emitted event.
pub fn is_contract_emitted(pallet: &str, variant: &str) -> (r: bool)
    ensures
        r <==> (pallet@ == "Contracts"@ && variant@ == "ContractEmitted"@),
{
    str_eq(pallet, "Contracts") && str_eq(variant, "ContractEmitted")
}

/// Whether a field of the given record is the special-cased contract payload.
pub open spec fn spec_is_contract_data(
    pallet: Seq<char>,
    variant: Seq<char>,
    field_name: Option<String>,
) -> bool {
    &&& pallet == "Contracts"@
    &&& variant == "ContractEmitted"@
    &&& field_name matches Some(n) && n@ == "data"@
}

/// Decides how a field is decoded: the `data` field of a contract-emitted
/// record carries the opaque contract payload, every other field is decoded
/// generically against its declared type identifier.
pub fn field_decode_plan(pallet: &str, variant: &str, metadata: &FieldMetadata) -> (r: DecodePlan)
    ensures
        spec_is_contract_data(pallet@, variant@, metadata.name) ==> r == DecodePlan::ContractData,
        !spec_is_contract_data(pallet@, variant@, metadata.name) ==> r == DecodePlan::Generic(
            metadata.ty_id,
        ),
{
    let special = match &metadata.name {
        Some(n) => is_contract_emitted(pallet, variant) && str_eq(n.as_str(), "data"),
        None => false,
    };
    if special {
        DecodePlan::ContractData
    } else {
        DecodePlan::Generic(metadata.ty_id)
    }
}

/// Constructs the contract event data field: the transcoder's value when the
/// contract transcoder decoded the payload, and otherwise the payload bytes
/// as a hexadecimal string.
pub fn contract_event_data_field(
    transcoded: Option<Value>,
    raw: &Vec<u8>,
    ty_name: &Option<String>,
) -> (r: Field)
    ensures
        r.name@ == "data"@,
        transcoded matches Some(v) ==> r.value == v,
        transcoded is None ==> (r.value matches Value::Hex(h) && h@ == hex_str(raw@)),
        r.ty_name == *ty_name,
{
    let value = match transcoded {
        Some(v) => v,
        None => Value::Hex(hex_encode(raw)),
    };
    Field::new("data".to_owned(), value, clone_opt_string(ty_name))
}

/// Whether a record's fields were staged as `field_decode_plan` directs: a
/// field carries a contract-payload outcome exactly when the record is the
/// contract-emitted event and the field is named `data`; every other field
/// carries a generic decode outcome.
pub open spec fn record_staged_as_planned(rec: EventRecord) -> bool {
    forall|j: int|
        0 <= j < rec.fields@.len() ==> (((#[trigger] rec.fields@[j]).outcome is ContractData)
            <==> spec_is_contract_data(rec.pallet@, rec.name@, rec.fields@[j].metadata.name))
}

/// Whether every record of the log was staged as `field_decode_plan` directs.
pub open spec fn log_staged_as_planned(records: Seq<EventRecord>) -> bool {
    forall|i: int| 0 <= i < records.len() ==> record_staged_as_planned(#[trigger] records[i])
}

/// Whether a field takes one of the synthetic positional names: it is decoded
/// generically and declares no name.
pub open spec fn counts_unnamed(f: RawField) -> bool {
    !(f.outcome is ContractData) && f.metadata.name is None
}

/// How many fields before position `j` take a synthetic positional name.
pub open spec fn unnamed_before(fields: Seq<RawField>, j: int) -> nat
    decreases j,
{
    if j <= 0 {
        0
    } else {
        unnamed_before(fields, j - 1) + if counts_unnamed(fields[j - 1]) {
            1nat
        } else {
            0nat
        }
    }
}

/// Synthetic names are consecutive: while every generically-decoded field of
/// a record lacks a declared name, the field at position `j` is named with
/// the digits of `j` itself, counting from zero. The count starts afresh
/// with every record, since it is a function of that record's fields alone.
pub proof fn lemma_positional_names_are_consecutive(fields: Seq<RawField>, j: int)
    requires
        0 <= j <= fields.len(),
        forall|k: int| 0 <= k < j ==> counts_unnamed(#[trigger] fields[k]),
    ensures
        unnamed_before(fields, j) == j,
    decreases j,
{
    if j > 0 {
        lemma_positional_names_are_consecutive(fields, j - 1);
    }
}

/// What the decoded field at position `j` must look like, given the record's
/// raw fields.
pub open spec fn field_matches(f: Field, fields: Seq<RawField>, j: int) -> bool {
    match fields[j].outcome {
        FieldOutcome::ContractData { transcoded, raw } => {
            &&& f.name@ == "data"@
            &&& match transcoded {
                Some(v) => f.value == v,
                None => f.value matches Value::Hex(h) && h@ == hex_str(raw@),
            }
            &&& f.ty_name == fields[j].metadata.ty_name
        },
        FieldOutcome::Decoded(v) => {
            &&& match fields[j].metadata.name {
                Some(n) => f.name@ == n@,
                None => f.name@ == dec_str(unnamed_before(fields, j)),
            }
            &&& f.value == v
            &&& f.ty_name == fields[j].metadata.ty_name
        },
        FieldOutcome::Failed(_) => false,
    }
}

/// What the decoded event for `rec` must look like.
pub open spec fn event_matches(e: Event, rec: EventRecord) -> bool {
    &&& e.pallet@ == rec.pallet@
    &&& e.name@ == rec.name@
    &&& e.fields@.len() == rec.fields@.len()
    &&& forall|j: int|
        0 <= j < rec.fields@.len() ==> field_matches(#[trigger] e.fields@[j], rec.fields@, j)
}

/// The first generic-decode failure among `fields`, from position `j` on.
pub open spec fn fields_failure_from(fields: Seq<RawField>, j: int) -> Option<Seq<char>>
    decreases fields.len() - j,
{
    if j < 0 || j >= fields.len() {
        None
    } else {
        match fields[j].outcome {
            FieldOutcome::Failed(m) => Some(m@),
            _ => fields_failure_from(fields, j + 1),
        }
    }
}

/// The first generic-decode failure among `records`, from record `i` on.
pub open spec fn records_failure_from(records: Seq<EventRecord>, i: int) -> Option<Seq<char>>
    decreases records.len() - i,
{
    if i < 0 || i >= records.len() {
        None
    } else {
        match fields_failure_from(records[i].fields@, 0) {
            Some(m) => Some(m),
            None => records_failure_from(records, i + 1),
        }
    }
}

/// The first generic-decode failure in the whole log, if any.
pub open spec fn log_failure(records: Seq<EventRecord>) -> Option<Seq<char>> {
    records_failure_from(records, 0)
}

proof fn lemma_fields_failure_skip(fields: Seq<RawField>, j: int)
    requires
        0 <= j <= fields.len(),
        forall|k: int| 0 <= k < j ==> !((#[trigger] fields[k].outcome) is Failed),
    ensures
        fields_failure_from(fields, 0) == fields_failure_from(fields, j),
    decreases j,
{
    if j > 0 {
        lemma_fields_failure_skip(fields, j - 1);
        assert(fields_failure_from(fields, j - 1) == fields_failure_from(fields, j));
    }
}

proof fn lemma_records_failure_skip(records: Seq<EventRecord>, i: int)
    requires
        0 <= i <= records.len(),
        forall|k: int|
            0 <= k < i ==> fields_failure_from((#[trigger] records[k].fields)@, 0) is None,
    ensures
        records_failure_from(records, 0) == records_failure_from(records, i),
    decreases i,
{
    if i > 0 {
        lemma_records_failure_skip(records, i - 1);
        assert(records_failure_from(records, i - 1) == records_failure_from(records, i));
    }
}

/// Displays events produced from invoking a contract extrinsic.
#[derive(Debug)]
pub struct DisplayEvents(Vec<Event>);

impl DisplayEvents {
    /// The decoded events, in log order.
    pub closed spec fn spec_events(&self) -> Seq<Event> {
        self.0@
    }

    /// The decoded events, in log order.
    pub fn events(&self) -> (r: &Vec<Event>)
        ensures
            r@ == self.spec_events(),
    {
        &self.0
    }

    /// Decodes one record of the log into an event: field order is kept,
    /// declared names are kept, unnamed generically-decoded fields are
    /// numbered from zero within the record, and the `data` field of a
    /// contract-emitted record — and only that field — takes the transcoded
    /// value or its hex fallback. The first rejected field aborts with its
    /// message.
    pub fn decode_record(rec: &EventRecord) -> (r: Result<Event, ErrorVariant>)
        requires
            record_staged_as_planned(*rec),
        ensures
            r is Ok <==> fields_failure_from(rec.fields@, 0) is None,
            r matches Ok(e) ==> event_matches(e, *rec),
            r matches Err(err) ==> Some(err.spec_message()) == fields_failure_from(rec.fields@, 0),
    {
        let mut out_fields: Vec<Field> = Vec::new();
        let mut unnamed_field_name: usize = 0;
        let n = rec.fields.len();
        let mut j: usize = 0;
        while j < n
            invariant
                j <= n,
                n == rec.fields@.len(),
                out_fields@.len() == j,
                unnamed_field_name == unnamed_before(rec.fields@, j as int),
                unnamed_field_name <= j,
                forall|k: int|
                    0 <= k < j ==> field_matches(#[trigger] out_fields@[k], rec.fields@, k),
                forall|k: int| 0 <= k < j ==> !((#[trigger] rec.fields@[k].outcome) is Failed),
            decreases n - j,
        {
            let rf = &rec.fields[j];
            match &rf.outcome {
                FieldOutcome::ContractData { transcoded, raw } => {
                    let t = match transcoded {
                        Some(v) => Some(v.clone()),
                        None => None,
                    };
                    let field = contract_event_data_field(t, raw, &rf.metadata.ty_name);
                    out_fields.push(field);
                },
                FieldOutcome::Decoded(v) => {
                    let field_name = match &rf.metadata.name {
                        Some(s) => s.clone(),
                        None => {
                            let name = usize_to_string(unnamed_field_name);
                            unnamed_field_name += 1;
                            name
                        },
                    };
                    let field = Field::new(
                        field_name,
                        v.clone(),
                        clone_opt_string(&rf.metadata.ty_name),
                    );
                    out_fields.push(field);
                },
                FieldOutcome::Failed(m) => {
                    proof {
                        lemma_fields_failure_skip(rec.fields@, j as int);
                    }
                    return Err(ErrorVariant::Generic(GenericError::from_message(m.clone())));
                },
            }
            j += 1;
        }
        proof {
            lemma_fields_failure_skip(rec.fields@, n as int);
        }
        let e = Event { pallet: rec.pallet.clone(), name: rec.name.clone(), fields: out_fields };
        Ok(e)
    }

    /// Parses the records of an event log, staged as `field_decode_plan`
    /// directs, and returns an object which can be serialised. Record order
    /// is kept; a field's value comes from the contract-payload path exactly
    /// when its record is the contract-emitted event and it is named `data`;
    /// the first rejected field of any record aborts the whole pass with its
    /// message.
    pub fn from_events(records: &Vec<EventRecord>) -> (r: Result<DisplayEvents, ErrorVariant>)
        requires
            log_staged_as_planned(records@),
        ensures
            r is Ok <==> log_failure(records@) is None,
            r matches Ok(d) ==> d.spec_events().len() == records@.len() && (forall|i: int|
                0 <= i < records@.len() ==> event_matches(
                    #[trigger] d.spec_events()[i],
                    records@[i],
                )),
            r matches Err(err) ==> Some(err.spec_message()) == log_failure(records@),
    {
        let mut events: Vec<Event> = Vec::new();
        let n = records.len();
        let mut i: usize = 0;
        while i < n
            invariant
                i <= n,
                n == records@.len(),
                log_staged_as_planned(records@),
                events@.len() == i,
                forall|k: int| 0 <= k < i ==> event_matches(#[trigger] events@[k], records@[k]),
                forall|k: int|
                    0 <= k < i ==> fields_failure_from((#[trigger] records@[k].fields)@, 0) is None,
            decreases n - i,
        {
            proof {
                assert(record_staged_as_planned(records@[i as int]));
            }
            match Self::decode_record(&records[i]) {
                Ok(e) => {
                    events.push(e);
                },
                Err(err) => {
                    proof {
                        lemma_records_failure_skip(records@, i as int);
                    }
                    return Err(err);
                },
            }
            i += 1;
        }
        proof {
            lemma_records_failure_skip(records@, n as int);
        }
        Ok(DisplayEvents(events))
    }
}

} // verus!

//! JSON rendering of decoded events.
//!
//! The machine-readable output: every event with its pallet, variant name and
//! fields, each field with its name and value, pretty-printed with two-space
//! indentation and stable key order. The declared type name of a field is
//! display-only metadata and is deliberately left out.
use vstd::prelude::*;

use crate::config::ErrorVariant;
use crate::events::{DisplayEvents, Event, Field, Value};
use crate::text::{append_json_escaped, dec_str, json_escape, u128_to_string};

verus! {

/// The JSON text of one value. Strings are escaped and quoted; an undecoded
/// byte string appears as a quoted hexadecimal string with a `0x` prefix.
pub open spec fn json_of_value(v: Value) -> Seq<char> {
    match v {
        Value::Bool(b) => if b {
            "true"@
        } else {
            "false"@
        },
        Value::UInt(u) => dec_str(u as nat),
        Value::Int(i) => if i >= 0 {
            dec_str(i as nat)
        } else {
            seq!['-'] + dec_str((-(i as int)) as nat)
        },
        Value::Str(s) => seq!['"'] + json_escape(s@) + seq!['"'],
        Value::Hex(h) => seq!['"'] + json_escape("0x"@ + h@) + seq!['"'],
    }
}

/// The given pieces of text joined with the separator, in order.
pub open spec fn sep_join(parts: Seq<Seq<char>>, sep: Seq<char>) -> Seq<char>
    decreases parts.len(),
{
    if parts.len() == 0 {
        Seq::<char>::empty()
    } else if parts.len() == 1 {
        parts[0]
    } else {
        sep_join(parts.drop_last(), sep) + sep + parts.last()
    }
}

/// The JSON text of one field: an object holding the field's name and value,
/// indented as an entry of an event's field list.
pub open spec fn json_of_field(f: Field) -> Seq<char> {
    "{\n        \"name\": \""@ + json_escape(f.name@) + "\",\n        \"value\": "@
        + json_of_value(f.value) + "\n      }"@
}

/// The JSON text of an event's field list.
pub open spec fn json_of_fields(fields: Seq<Field>) -> Seq<char> {
    if fields.len() == 0 {
        "[]"@
    } else {
        "[\n      "@ + sep_join(fields.map_values(|f: Field| json_of_field(f)), ",\n      "@)
            + "\n    ]"@
    }
}

/// The JSON text of one event: pallet, variant name, then the fields, in
/// declaration order, indented as an entry of the event list.
pub open spec fn json_of_event(e: Event) -> Seq<char> {
    "{\n    \"pallet\": \""@ + json_escape(e.pallet@) + "\",\n    \"name\": \""@ + json_escape(
        e.name@,
    ) + "\",\n    \"fields\": "@ + json_of_fields(e.fields@) + "\n  }"@
}

/// The JSON text of a whole event listing: an array of events in log order.
pub open spec fn json_of_events(events: Seq<Event>) -> Seq<char> {
    if events.len() == 0 {
        "[]"@
    } else {
        "[\n  "@ + sep_join(events.map_values(|e: Event| json_of_event(e)), ",\n  "@) + "\n]"@
    }
}

fn append_quote(out: &mut String)
    ensures
        final(out)@ == old(out)@ + seq!['"'],
{
    proof {
        reveal_strlit("\"");
        assert("\""@ =~= seq!['"']);
    }
    out.append("\"");
}

fn append_json_value(out: &mut String, v: &Value)
    ensures
        final(out)@ == old(out)@ + json_of_value(*v),
{
    match v {
        Value::Bool(b) => {
            if *b {
                out.append("true");
            } else {
                out.append("false");
            }
        },
        Value::UInt(u) => {
            let s = u128_to_string(*u);
            out.append(s.as_str());
        },
        Value::Int(i) => {
            if *i >= 0 {
                let s = u128_to_string(*i as u128);
                out.append(s.as_str());
            } else {
                proof {
                    reveal_strlit("-");
                    assert("-"@ =~= seq!['-']);
                }
                out.append("-");
                let mag: u128 = if *i == i128::MIN {
                    170141183460469231731687303715884105728u128
                } else {
                    (-*i) as u128
                };
                proof {
                    assert(mag as nat == (-((*i) as int)) as nat);
                }
                let s = u128_to_string(mag);
                out.append(s.as_str());
            }
        },
        Value::Str(s) => {
            append_quote(out);
            append_json_escaped(out, s.as_str());
            append_quote(out);
            proof {
                assert(out@ =~= old(out)@ + json_of_value(*v));
            }
        },
        Value::Hex(h) => {
            append_quote(out);
            append_json_escaped(out, "0x");
            append_json_escaped(out, h.as_str());
            proof {
                crate::text::lemma_json_escape_concat("0x"@, h@);
            }
            append_quote(out);
            proof {
                assert(out@ =~= old(out)@ + json_of_value(*v));
            }
        },
    }
}

fn append_json_field(out: &mut String, f: &Field)
    ensures
        final(out)@ == old(out)@ + json_of_field(*f),
{
    out.append("{\n        \"name\": \"");
    append_json_escaped(out, f.name.as_str());
    out.append("\",\n        \"value\": ");
    append_json_value(out, &f.value);
    out.append("\n      }");
    proof {
        assert(out@ =~= old(out)@ + json_of_field(*f));
    }
}

fn append_json_event(out: &mut String, e: &Event)
    ensures
        final(out)@ == old(out)@ + json_of_event(*e),
{
    out.append("{\n    \"pallet\": \"");
    append_json_escaped(out, e.pallet.as_str());
    out.append("\",\n    \"name\": \"");
    append_json_escaped(out, e.name.as_str());
    out.append("\",\n    \"fields\": ");
    let n = e.fields.len();
    if n == 0 {
        out.append("[]");
    } else {
        out.append("[\n      ");
        let mut j: usize = 0;
        proof {
            assert(e.fields@.take(0).map_values(|f: Field| json_of_field(f)) =~= Seq::<
                Seq<char>,
            >::empty());
        }
        while j < n
            invariant
                j <= n,
                n == e.fields@.len(),
                n > 0,
                out@ == old(out)@ + "{\n    \"pallet\": \""@ + json_escape(e.pallet@)
                    + "\",\n    \"name\": \""@ + json_escape(e.name@) + "\",\n    \"fields\": "@
                    + "[\n      "@ + sep_join(
                    e.fields@.take(j as int).map_values(|f: Field| json_of_field(f)),
                    ",\n      "@,
                ),
            decreases n - j,
        {
            if j > 0 {
                out.append(",\n      ");
            }
            append_json_field(out, &e.fields[j]);
            proof {
                let sep = ",\n      "@;
                let prev = e.fields@.take(j as int).map_values(|f: Field| json_of_field(f));
                let cur = e.fields@.take(j + 1).map_values(|f: Field| json_of_field(f));
                assert(cur =~= prev.push(json_of_field(e.fields@[j as int])));
                if j == 0 {
                    assert(sep_join(cur, sep) == cur[0]);
                } else {
                    assert(cur.drop_last() =~= prev);
                    assert(sep_join(cur, sep) == sep_join(prev, sep) + sep + json_of_field(
                        e.fields@[j as int],
                    ));
                }
            }
            j += 1;
        }
        proof {
            assert(e.fields@.take(n as int) =~= e.fields@);
        }
        out.append("\n    ]");
    }
    out.append("\n  }");
    proof {
        assert(out@ =~= old(out)@ + json_of_event(*e));
    }
}

impl DisplayEvents {
    /// Returns an event result in JSON format: pretty-printed with two-space
    /// indentation, keys in declaration order, the fields' declared type
    /// names omitted.
    pub fn to_json(&self) -> (r: Result<String, ErrorVariant>)
        ensures
            r is Ok,
            r matches Ok(s) ==> s@ == json_of_events(self.spec_events()),
    {
        let mut out = String::new();
        let events = self.events();
        let n = events.len();
        if n == 0 {
            out.append("[]");
            proof {
                assert(out@ =~= json_of_events(self.spec_events()));
            }
            return Ok(out);
        }
        out.append("[\n  ");
        let mut i: usize = 0;
        proof {
            assert(self.spec_events().take(0).map_values(|e: Event| json_of_event(e)) =~= Seq::<
                Seq<char>,
            >::empty());
        }
        while i < n
            invariant
                i <= n,
                n == self.spec_events().len(),
                n > 0,
                events@ == self.spec_events(),
                out@ == "[\n  "@ + sep_join(
                    self.spec_events().take(i as int).map_values(|e: Event| json_of_event(e)),
                    ",\n  "@,
                ),
            decreases n - i,
        {
            if i > 0 {
                out.append(",\n  ");
            }
            append_json_event(&mut out, &events[i]);
            proof {
                let sep = ",\n  "@;
                let prev = self.spec_events().take(i as int).map_values(
                    |e: Event| json_of_event(e),
                );
                let cur = self.spec_events().take(i + 1).map_values(|e: Event| json_of_event(e));
                assert(cur =~= prev.push(json_of_event(self.spec_events()[i as int])));
                if i == 0 {
                    assert(sep_join(cur, sep) == cur[0]);
                } else {
                    assert(cur.drop_last() =~= prev);
                    assert(sep_join(cur, sep) == sep_join(prev, sep) + sep + json_of_event(
                        self.spec_events()[i as int],
                    ));
                }
            }
            i += 1;
        }
        proof {
            assert(self.spec_events().take(n as int) =~= self.spec_events());
        }
        out.append("\n]");
        proof {
            assert(out@ =~= json_of_events(self.spec_events()));
        }
        Ok(out)
    }
}

} // verus!

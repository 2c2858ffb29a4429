//! Human-readable rendering of decoded events.
//!
//! The listing prints one header line and one line per event naming its
//! pallet and variant; the per-field lines appear only under verbose output.
//! A field whose declared type is one of the two well-known balance types and
//! whose value is an unsigned integer is reformatted with the chain's token
//! symbol and decimal precision instead of the raw integer. Labels are
//! colorized; the escape codes the styling adds depend on the terminal, so
//! the contracts pin the listing's line structure and the rendering of the
//! values, not the escape codes themselves.
use colored::Colorize;
use vstd::prelude::*;

use crate::config::ErrorVariant;
use crate::events::{DisplayEvents, Event, Field, Value};
use crate::text::{
    append_padded_left,
    append_spaces,
    dec_digit,
    dec_str,
    i128_to_string,
    int_str,
    pad_left,
    spaces,
    str_eq,
    u128_to_string,
};
use crate::DEFAULT_KEY_COL_WIDTH;

verus! {

/// How much of the listing is printed.
#[derive(Debug, Clone, Copy, PartialEq, Eq, Structural)]
pub enum Verbosity {
    /// Print nothing beyond the event headers.
    Quiet,
    /// The normal output level; field lines are printed.
    Default,
    /// Field lines are printed.
    Verbose,
}

impl Verbosity {
    /// Whether per-field lines are printed at this level.
    pub open spec fn spec_is_verbose(&self) -> bool {
        !(*self is Quiet)
    }

    /// Whether per-field lines are printed at this level.
    pub fn is_verbose(&self) -> (r: bool)
        ensures
            r == self.spec_is_verbose(),
    {
        match self {
            Verbosity::Quiet => false,
            Verbosity::Default => true,
            Verbosity::Verbose => true,
        }
    }
}

/// The chain's token denomination: its display symbol and how many decimal
/// places one token has.
#[derive(Debug)]
pub struct TokenMetadata {
    /// The token's display symbol.
    pub symbol: String,
    /// The number of decimal places in one token unit.
    pub decimals: u8,
}

/// `n` with its last `k` decimal digits cut off.
pub open spec fn div_pow10(n: nat, k: nat) -> nat
    decreases k,
{
    if k == 0 {
        n
    } else {
        div_pow10(n / 10, (k - 1) as nat)
    }
}

/// The last `k` decimal digits of `n`, zero padded to exactly `k` characters.
pub open spec fn frac_digits(n: nat, k: nat) -> Seq<char>
    decreases k,
{
    if k == 0 {
        Seq::<char>::empty()
    } else {
        frac_digits(n / 10, (k - 1) as nat).push(dec_digit(n % 10))
    }
}

/// A raw balance reformatted under the token denomination: the whole tokens,
/// a point, exactly `decimals` fractional digits, a space and the symbol; a
/// denomination without decimals shows the plain integer and the symbol.
pub open spec fn balance_str(n: nat, decimals: nat, symbol: Seq<char>) -> Seq<char> {
    if decimals == 0 {
        dec_str(n) + seq![' '] + symbol
    } else {
        dec_str(div_pow10(n, decimals)) + seq!['.'] + frac_digits(n, decimals) + seq![' '] + symbol
    }
}

fn div_pow10_exec(n: u128, k: u8) -> (r: u128)
    ensures
        r as nat == div_pow10(n as nat, k as nat),
    decreases k,
{
    if k == 0 {
        n
    } else {
        div_pow10_exec(n / 10, k - 1)
    }
}

fn frac_digits_exec(n: u128, k: u8) -> (r: String)
    ensures
        r@ == frac_digits(n as nat, k as nat),
    decreases k,
{
    if k == 0 {
        String::new()
    } else {
        let mut s = frac_digits_exec(n / 10, k - 1);
        s.append(crate::text::dec_digit_str(n % 10));
        proof {
            assert(frac_digits((n / 10) as nat, (k - 1) as nat).push(dec_digit((n % 10) as nat))
                =~= frac_digits((n / 10) as nat, (k - 1) as nat) + seq![dec_digit((n % 10) as nat)]);
        }
        s
    }
}

/// Reformats a raw balance under the token denomination.
pub fn balance_to_string(n: u128, token: &TokenMetadata) -> (r: String)
    ensures
        r@ == balance_str(n as nat, token.decimals as nat, token.symbol@),
{
    proof {
        reveal_strlit(" ");
        reveal_strlit(".");
        assert(" "@ =~= seq![' ']);
        assert("."@ =~= seq!['.']);
    }
    if token.decimals == 0 {
        let mut out = u128_to_string(n);
        out.append(" ");
        out.append(token.symbol.as_str());
        proof {
            assert(out@ =~= balance_str(n as nat, token.decimals as nat, token.symbol@));
        }
        out
    } else {
        let whole = div_pow10_exec(n, token.decimals);
        let mut out = u128_to_string(whole);
        out.append(".");
        let frac = frac_digits_exec(n, token.decimals);
        out.append(frac.as_str());
        out.append(" ");
        out.append(token.symbol.as_str());
        proof {
            assert(out@ =~= balance_str(n as nat, token.decimals as nat, token.symbol@));
        }
        out
    }
}

/// The plain rendering of a value: booleans and integers as usual, a text
/// string as itself, an undecoded byte string as hexadecimal digits with a
/// `0x` prefix.
pub open spec fn value_str(v: Value) -> Seq<char> {
    match v {
        Value::Bool(b) => if b {
            "true"@
        } else {
            "false"@
        },
        Value::UInt(u) => dec_str(u as nat),
        Value::Int(i) => int_str(i as int),
        Value::Str(s) => s@,
        Value::Hex(h) => "0x"@ + h@,
    }
}

/// Renders a value plainly.
pub fn value_to_string(v: &Value) -> (r: String)
    ensures
        r@ == value_str(*v),
{
    match v {
        Value::Bool(b) => {
            if *b {
                "true".to_owned()
            } else {
                "false".to_owned()
            }
        },
        Value::UInt(u) => u128_to_string(*u),
        Value::Int(i) => i128_to_string(*i),
        Value::Str(s) => s.clone(),
        Value::Hex(h) => {
            let mut out = "0x".to_owned();
            out.append(h.as_str());
            out
        },
    }
}

/// Whether a declared type name is one of the two well-known balance types.
pub open spec fn spec_is_balance_type(t: Seq<char>) -> bool {
    t == "T::Balance"@ || t == "BalanceOf<T>"@
}

/// What a field's value line shows: a balance-typed unsigned integer is
/// reformatted under the token denomination, everything else is rendered
/// plainly.
pub open spec fn field_display_value(f: Field, token: TokenMetadata) -> Seq<char> {
    match f.ty_name {
        Some(t) => if spec_is_balance_type(t@) {
            match f.value {
                Value::UInt(u) => balance_str(u as nat, token.decimals as nat, token.symbol@),
                _ => value_str(f.value),
            }
        } else {
            value_str(f.value)
        },
        None => value_str(f.value),
    }
}

/// Renders what a field's value line shows.
pub fn field_value_string(f: &Field, token: &TokenMetadata) -> (r: String)
    ensures
        r@ == field_display_value(*f, *token),
{
    let is_balance = match &f.ty_name {
        Some(t) => str_eq(t.as_str(), "T::Balance") || str_eq(t.as_str(), "BalanceOf<T>"),
        None => false,
    };
    if is_balance {
        match &f.value {
            Value::UInt(u) => balance_to_string(*u, token),
            _ => value_to_string(&f.value),
        }
    } else {
        value_to_string(&f.value)
    }
}

/// The predicate that picks the line breaks out of a text.
pub open spec fn nl_pred() -> spec_fn(char) -> bool {
    |c: char| c == '\n'
}

/// How many line breaks a text holds.
pub open spec fn line_count(s: Seq<char>) -> nat {
    s.filter(nl_pred()).len()
}

/// Whether a text holds no line break.
pub open spec fn has_no_newline(s: Seq<char>) -> bool {
    forall|k: int| 0 <= k < s.len() ==> s[k] != '\n'
}

/// Whether a text holds neither a line break nor a terminal escape
/// character. Styling keeps such a text intact; a text with embedded escape
/// sequences would be rewritten by it.
pub open spec fn plain_text(s: Seq<char>) -> bool {
    forall|k: int| 0 <= k < s.len() ==> (s[k] != '\n' && s[k] != '\u{1b}')
}

/// What the styling wrappers promise: the styled text is the plain text with
/// something in front and something behind, and neither addition holds a
/// line break.
pub open spec fn styled_of(r: Seq<char>, s: Seq<char>) -> bool {
    exists|p: Seq<char>, q: Seq<char>|
        r == p + s + q && has_no_newline(p) && has_no_newline(q)
}

/// Whether `hay` holds `needle` as one contiguous run.
pub open spec fn contains_seq(hay: Seq<char>, needle: Seq<char>) -> bool {
    exists|k: int|
        0 <= k && k + needle.len() <= hay.len() && #[trigger] hay.subrange(
            k,
            k + needle.len() as int,
        ) == needle
}

proof fn lemma_contains_at(a: Seq<char>, x: Seq<char>, tail: Seq<char>)
    ensures
        contains_seq(a + x + tail, x),
{
    let h = a + x + tail;
    assert(h.subrange(a.len() as int, a.len() + x.len() as int) =~= x);
}

proof fn lemma_contains_extend(a: Seq<char>, t: Seq<char>, x: Seq<char>)
    requires
        contains_seq(a, x),
    ensures
        contains_seq(a + t, x),
{
    let k = choose|k: int|
        0 <= k && k + x.len() <= a.len() && #[trigger] a.subrange(k, k + x.len() as int) == x;
    assert((a + t).subrange(k, k + x.len() as int) =~= a.subrange(k, k + x.len() as int));
}

proof fn lemma_line_count_none(s: Seq<char>)
    requires
        has_no_newline(s),
    ensures
        line_count(s) == 0,
    decreases s.len(),
{
    reveal(Seq::filter);
    if s.len() > 0 {
        assert(has_no_newline(s.drop_last()));
        lemma_line_count_none(s.drop_last());
        assert(!nl_pred()(s.last()));
    }
}

proof fn lemma_line_count_add(a: Seq<char>, b: Seq<char>)
    ensures
        line_count(a + b) == line_count(a) + line_count(b),
{
    broadcast use Seq::filter_distributes_over_add;

    assert((a + b).filter(nl_pred()) == a.filter(nl_pred()) + b.filter(nl_pred()));
}

proof fn lemma_line_count_newline()
    ensures
        line_count("\n"@) == 1,
{
    reveal_strlit("\n");
    reveal(Seq::filter);
    let s = "\n"@;
    assert(s =~= seq!['\n']);
    assert(s.drop_last() =~= Seq::<char>::empty());
    assert(Seq::<char>::empty().filter(nl_pred()).len() == 0);
    assert(nl_pred()(s.last()));
}

proof fn lemma_line_count_styled(r: Seq<char>, s: Seq<char>)
    requires
        styled_of(r, s),
        has_no_newline(s),
    ensures
        line_count(r) == 0,
{
    let (p, q): (Seq<char>, Seq<char>) = choose|p: Seq<char>, q: Seq<char>|
        r == p + s + q && has_no_newline(p) && has_no_newline(q);
    lemma_line_count_add(p + s, q);
    lemma_line_count_add(p, s);
    lemma_line_count_none(p);
    lemma_line_count_none(s);
    lemma_line_count_none(q);
}

proof fn lemma_line_count_padded(s: Seq<char>, width: nat)
    ensures
        line_count(pad_left(s, width)) == line_count(s),
{
    if s.len() < width {
        let pad = spaces((width - s.len()) as nat);
        assert(has_no_newline(pad));
        lemma_line_count_none(pad);
        lemma_line_count_add(pad, s);
    }
}

/// Relies on colored's `Colorize::bright_purple` and `bold`: the styling
/// keeps a text free of escape characters intact, wrapping it in terminal
/// escape codes (or in nothing when colors are off); the codes it adds hold
/// no line break.
#[verifier::external_body]
fn style_heading(s: &str) -> (r: String)
    ensures
        plain_text(s@) ==> styled_of(r@, s@),
{
    format!("{}", s.bright_purple().bold())
}

/// Relies on colored's `Colorize::bright_green` and `bold`: the styling
/// keeps a text free of escape characters intact, wrapping it in terminal
/// escape codes (or in nothing when colors are off); the codes it adds hold
/// no line break.
#[verifier::external_body]
fn style_event_label(s: &str) -> (r: String)
    ensures
        plain_text(s@) ==> styled_of(r@, s@),
{
    format!("{}", s.bright_green().bold())
}

/// Relies on colored's `Colorize::bright_white`: the styling keeps a text
/// free of escape characters intact, wrapping it in terminal escape codes
/// (or in nothing when colors are off); the codes it adds hold no line
/// break.
#[verifier::external_body]
fn style_name(s: &str) -> (r: String)
    ensures
        plain_text(s@) ==> styled_of(r@, s@),
{
    format!("{}", s.bright_white())
}

/// Relies on colored's `Colorize::bright_white` and `bold`: the styling
/// keeps a text free of escape characters intact, wrapping it in terminal
/// escape codes (or in nothing when colors are off); the codes it adds hold
/// no line break.
#[verifier::external_body]
fn style_name_bold(s: &str) -> (r: String)
    ensures
        plain_text(s@) ==> styled_of(r@, s@),
{
    format!("{}", s.bright_white().bold())
}

/// Whether every line-forming part of an event is free of line breaks: its
/// pallet and variant names, and each field's name and display value.
pub open spec fn event_single_line(e: Event, token: TokenMetadata) -> bool {
    &&& plain_text(e.pallet@)
    &&& plain_text(e.name@)
    &&& forall|j: int|
        0 <= j < e.fields@.len() ==> (plain_text((#[trigger] e.fields@[j]).name@)
            && has_no_newline(field_display_value(e.fields@[j], token)))
}

/// Whether every event of the listing renders on single lines.
pub open spec fn events_single_line(events: Seq<Event>, token: TokenMetadata) -> bool {
    forall|i: int| 0 <= i < events.len() ==> event_single_line(#[trigger] events[i], token)
}

/// How many lines the listing devotes to the events themselves: one per
/// event, plus one per field when the level is verbose.
pub open spec fn lines_of_events(events: Seq<Event>, verbose: bool) -> nat
    decreases events.len(),
{
    if events.len() == 0 {
        0
    } else {
        1 + (if verbose {
            events[0].fields@.len()
        } else {
            0
        }) + lines_of_events(events.drop_first(), verbose)
    }
}

proof fn lemma_lines_of_events_push(events: Seq<Event>, e: Event, verbose: bool)
    ensures
        lines_of_events(events.push(e), verbose) == lines_of_events(events, verbose) + 1 + (
        if verbose {
            e.fields@.len()
        } else {
            0nat
        }),
    decreases events.len(),
{
    let whole = events.push(e);
    assert(whole.len() == events.len() + 1);
    assert(lines_of_events(whole, verbose) == 1 + (if verbose {
        whole[0].fields@.len()
    } else {
        0nat
    }) + lines_of_events(whole.drop_first(), verbose));
    if events.len() == 0 {
        assert(whole[0] == e);
        assert(whole.drop_first() =~= Seq::<Event>::empty());
        assert(lines_of_events(Seq::<Event>::empty(), verbose) == 0);
    } else {
        lemma_lines_of_events_push(events.drop_first(), e, verbose);
        assert(whole.drop_first() =~= events.drop_first().push(e));
        assert(whole[0] == events[0]);
        assert(lines_of_events(events, verbose) == 1 + (if verbose {
            events[0].fields@.len()
        } else {
            0nat
        }) + lines_of_events(events.drop_first(), verbose));
    }
}

fn append_newline(out: &mut String)
    ensures
        final(out)@ == old(out)@ + "\n"@,
        line_count(final(out)@) == line_count(old(out)@) + 1,
{
    out.append("\n");
    proof {
        lemma_line_count_add(old(out)@, "\n"@);
        lemma_line_count_newline();
    }
}

#[verifier::rlimit(50)]
fn append_header_line(out: &mut String)
    ensures
        line_count(final(out)@) == line_count(old(out)@) + 1,
        contains_seq(final(out)@, "Events"@),
        exists|t: Seq<char>| (final(out)@ == old(out)@ + t),
{
    let heading = style_heading("Events");
    append_padded_left(out, heading.as_str(), DEFAULT_KEY_COL_WIDTH);
    proof {
        reveal_strlit("Events");
        assert(plain_text("Events"@));
        lemma_line_count_styled(heading@, "Events"@);
        lemma_line_count_padded(heading@, DEFAULT_KEY_COL_WIDTH as nat);
        lemma_line_count_add(old(out)@, pad_left(heading@, DEFAULT_KEY_COL_WIDTH as nat));
    }
    append_newline(out);
    proof {
        let width = DEFAULT_KEY_COL_WIDTH as nat;
        assert(out@ =~= old(out)@ + (pad_left(heading@, width) + "\n"@));
        let (p, q): (Seq<char>, Seq<char>) = choose|p: Seq<char>, q: Seq<char>|
            heading@ == p + "Events"@ + q && has_no_newline(p) && has_no_newline(q);
        if heading@.len() >= width {
            assert(out@ =~= (old(out)@ + p) + "Events"@ + (q + "\n"@));
            lemma_contains_at(old(out)@ + p, "Events"@, q + "\n"@);
        } else {
            let pad = spaces((width - heading@.len()) as nat);
            assert(out@ =~= (old(out)@ + pad + p) + "Events"@ + (q + "\n"@));
            lemma_contains_at(old(out)@ + pad + p, "Events"@, q + "\n"@);
        }
    }
}

#[verifier::rlimit(50)]
fn append_event_line(out: &mut String, event: &Event)
    ensures
        plain_text(event.pallet@) && plain_text(event.name@) ==> line_count(final(out)@)
            == line_count(old(out)@) + 1,
        plain_text(event.pallet@) ==> contains_seq(final(out)@, event.pallet@),
        plain_text(event.name@) ==> contains_seq(final(out)@, event.name@),
        exists|t: Seq<char>| (final(out)@ == old(out)@ + t),
{
    let label = style_event_label("Event");
    append_padded_left(out, label.as_str(), DEFAULT_KEY_COL_WIDTH);
    let ghost o1 = out@;
    out.append(" ");
    let ghost o2 = out@;
    let pallet = style_name(event.pallet.as_str());
    out.append(pallet.as_str());
    let ghost o3 = out@;
    out.append(" \u{279c} ");
    let ghost o4 = out@;
    let name = style_name_bold(event.name.as_str());
    out.append(name.as_str());
    proof {
        if plain_text(event.pallet@) && plain_text(event.name@) {
            reveal_strlit("Event");
            reveal_strlit(" ");
            reveal_strlit(" \u{279c} ");
            assert(plain_text("Event"@));
            assert(has_no_newline(" "@));
            assert(has_no_newline(" \u{279c} "@));
            lemma_line_count_styled(label@, "Event"@);
            lemma_line_count_padded(label@, DEFAULT_KEY_COL_WIDTH as nat);
            lemma_line_count_add(old(out)@, pad_left(label@, DEFAULT_KEY_COL_WIDTH as nat));
            lemma_line_count_none(" "@);
            lemma_line_count_add(o1, " "@);
            lemma_line_count_styled(pallet@, event.pallet@);
            lemma_line_count_add(o2, pallet@);
            lemma_line_count_none(" \u{279c} "@);
            lemma_line_count_add(o3, " \u{279c} "@);
            lemma_line_count_styled(name@, event.name@);
            lemma_line_count_add(o4, name@);
        }
    }
    append_newline(out);
    proof {
        let width = DEFAULT_KEY_COL_WIDTH as nat;
        assert(out@ =~= old(out)@ + (pad_left(label@, width) + " "@ + pallet@ + " \u{279c} "@
            + name@ + "\n"@));
        if plain_text(event.pallet@) {
            let (p, q): (Seq<char>, Seq<char>) = choose|p: Seq<char>, q: Seq<char>|
                pallet@ == p + event.pallet@ + q && has_no_newline(p) && has_no_newline(q);
            assert(out@ =~= (old(out)@ + pad_left(label@, width) + " "@ + p) + event.pallet@ + (q
                + " \u{279c} "@ + name@ + "\n"@));
            lemma_contains_at(
                old(out)@ + pad_left(label@, width) + " "@ + p,
                event.pallet@,
                q + " \u{279c} "@ + name@ + "\n"@,
            );
        }
        if plain_text(event.name@) {
            let (p, q): (Seq<char>, Seq<char>) = choose|p: Seq<char>, q: Seq<char>|
                name@ == p + event.name@ + q && has_no_newline(p) && has_no_newline(q);
            assert(out@ =~= (old(out)@ + pad_left(label@, width) + " "@ + pallet@ + " \u{279c} "@
                + p) + event.name@ + (q + "\n"@));
            lemma_contains_at(
                old(out)@ + pad_left(label@, width) + " "@ + pallet@ + " \u{279c} "@ + p,
                event.name@,
                q + "\n"@,
            );
        }
    }
}

#[verifier::rlimit(50)]
fn append_field_line(out: &mut String, field: &Field, token: &TokenMetadata, indent: usize)
    ensures
        plain_text(field.name@) && has_no_newline(field_display_value(*field, *token)) ==>
            line_count(final(out)@) == line_count(old(out)@) + 1,
        plain_text(field.name@) ==> contains_seq(final(out)@, field.name@),
        contains_seq(final(out)@, ": "@ + field_display_value(*field, *token) + "\n"@),
        exists|t: Seq<char>| (final(out)@ == old(out)@ + t),
{
    append_spaces(out, indent);
    let ghost o1 = out@;
    let fname = style_name(field.name.as_str());
    out.append(fname.as_str());
    let ghost o2 = out@;
    out.append(": ");
    let ghost o3 = out@;
    let value = field_value_string(field, token);
    out.append(value.as_str());
    proof {
        if plain_text(field.name@) && has_no_newline(field_display_value(*field, *token)) {
            reveal_strlit(": ");
            assert(has_no_newline(spaces(indent as nat)));
            lemma_line_count_none(spaces(indent as nat));
            lemma_line_count_add(old(out)@, spaces(indent as nat));
            lemma_line_count_styled(fname@, field.name@);
            lemma_line_count_add(o1, fname@);
            assert(has_no_newline(": "@));
            lemma_line_count_none(": "@);
            lemma_line_count_add(o2, ": "@);
            lemma_line_count_none(value@);
            lemma_line_count_add(o3, value@);
        }
    }
    append_newline(out);
    proof {
        assert(out@ =~= old(out)@ + (spaces(indent as nat) + fname@ + ": "@ + value@ + "\n"@));
        assert(out@ =~= (old(out)@ + spaces(indent as nat) + fname@) + (": "@
            + field_display_value(*field, *token) + "\n"@) + Seq::<char>::empty());
        lemma_contains_at(
            old(out)@ + spaces(indent as nat) + fname@,
            ": "@ + field_display_value(*field, *token) + "\n"@,
            Seq::<char>::empty(),
        );
        if plain_text(field.name@) {
            let (p, q): (Seq<char>, Seq<char>) = choose|p: Seq<char>, q: Seq<char>|
                fname@ == p + field.name@ + q && has_no_newline(p) && has_no_newline(q);
            assert(out@ =~= (old(out)@ + spaces(indent as nat) + p) + field.name@ + (q + ": "@
                + value@ + "\n"@));
            lemma_contains_at(
                old(out)@ + spaces(indent as nat) + p,
                field.name@,
                q + ": "@ + value@ + "\n"@,
            );
        }
    }
}

impl DisplayEvents {
    /// Displays events in a human readable format: a header line holding
    /// "Events", one line per event naming its pallet and variant, and, when
    /// `verbosity` asks for it, one line per field naming the field and
    /// showing its display value. The styling may wrap names in terminal
    /// escape codes, so the listing embeds each plain name rather than
    /// equalling a fixed text; as long as none of the rendered names and
    /// values holds a line break itself, the listing has exactly the lines
    /// above and no others.
    #[verifier::rlimit(80)]
    pub fn display_events(&self, verbosity: Verbosity, token_metadata: &TokenMetadata) -> (r:
        Result<String, ErrorVariant>)
        ensures
            r is Ok,
            r matches Ok(listing) ==> (events_single_line(self.spec_events(), *token_metadata)
                ==> line_count(listing@) == 1 + lines_of_events(
                self.spec_events(),
                verbosity.spec_is_verbose(),
            )),
            r matches Ok(listing) ==> contains_seq(listing@, "Events"@),
            r matches Ok(listing) ==> (forall|i: int|
                0 <= i < self.spec_events().len() ==> (plain_text(
                    (#[trigger] self.spec_events()[i]).pallet@,
                ) ==> contains_seq(listing@, self.spec_events()[i].pallet@))),
            r matches Ok(listing) ==> (forall|i: int|
                0 <= i < self.spec_events().len() ==> (plain_text(
                    (#[trigger] self.spec_events()[i]).name@,
                ) ==> contains_seq(listing@, self.spec_events()[i].name@))),
            r matches Ok(listing) ==> (verbosity.spec_is_verbose() ==> (forall|i: int, j: int|
                0 <= i < self.spec_events().len() && 0 <= j
                    < self.spec_events()[i].fields@.len() ==> (plain_text(
                    (#[trigger] self.spec_events()[i].fields@[j]).name@,
                ) ==> contains_seq(listing@, self.spec_events()[i].fields@[j].name@)))),
            r matches Ok(listing) ==> (verbosity.spec_is_verbose() ==> (forall|i: int, j: int|
                0 <= i < self.spec_events().len() && 0 <= j
                    < self.spec_events()[i].fields@.len() ==> contains_seq(
                    listing@,
                    ": "@ + field_display_value(
                        #[trigger] self.spec_events()[i].fields@[j],
                        *token_metadata,
                    ) + "\n"@,
                ))),
    {
        let ghost cond = events_single_line(self.spec_events(), *token_metadata);
        let event_field_indent: usize = DEFAULT_KEY_COL_WIDTH - 3;
        let mut out = String::new();
        proof {
            lemma_line_count_none(out@);
        }
        append_header_line(&mut out);
        let verbose = verbosity.is_verbose();
        let events = self.events();
        let n = events.len();
        let mut i: usize = 0;
        proof {
            assert(events@.take(0) =~= Seq::<Event>::empty());
        }
        while i < n
            invariant
                i <= n,
                n == events@.len(),
                events@ == self.spec_events(),
                verbose == verbosity.spec_is_verbose(),
                cond == events_single_line(self.spec_events(), *token_metadata),
                cond ==> line_count(out@) == 1 + lines_of_events(events@.take(i as int), verbose),
                contains_seq(out@, "Events"@),
                forall|k: int|
                    0 <= k < i ==> (plain_text((#[trigger] events@[k]).pallet@) ==> contains_seq(
                        out@,
                        events@[k].pallet@,
                    )),
                forall|k: int|
                    0 <= k < i ==> (plain_text((#[trigger] events@[k]).name@) ==> contains_seq(
                        out@,
                        events@[k].name@,
                    )),
                verbose ==> (forall|k: int, l: int|
                    0 <= k < i && 0 <= l < events@[k].fields@.len() ==> (plain_text(
                        (#[trigger] events@[k].fields@[l]).name@,
                    ) ==> contains_seq(out@, events@[k].fields@[l].name@))),
                verbose ==> (forall|k: int, l: int|
                    0 <= k < i && 0 <= l < events@[k].fields@.len() ==> contains_seq(
                        out@,
                        ": "@ + field_display_value(
                            #[trigger] events@[k].fields@[l],
                            *token_metadata,
                        ) + "\n"@,
                    )),
            decreases n - i,
        {
            let event = &events[i];
            let ghost before_event = out@;
            append_event_line(&mut out, event);
            proof {
                let t = choose|t: Seq<char>| out@ == before_event + t;
                lemma_contains_extend(before_event, t, "Events"@);
                assert forall|k: int|
                    0 <= k < i && plain_text(
                        (#[trigger] events@[k]).pallet@,
                    ) implies contains_seq(out@, events@[k].pallet@) by {
                    lemma_contains_extend(before_event, t, events@[k].pallet@);
                }
                assert forall|k: int|
                    0 <= k < i && plain_text((#[trigger] events@[k]).name@) implies contains_seq(
                    out@,
                    events@[k].name@,
                ) by {
                    lemma_contains_extend(before_event, t, events@[k].name@);
                }
                if verbose {
                    assert forall|k: int, l: int|
                        0 <= k < i && 0 <= l < events@[k].fields@.len() && plain_text(
                            (#[trigger] events@[k].fields@[l]).name@,
                        ) implies contains_seq(out@, events@[k].fields@[l].name@) by {
                        lemma_contains_extend(before_event, t, events@[k].fields@[l].name@);
                    }
                    assert forall|k: int, l: int|
                        0 <= k < i && 0 <= l < events@[k].fields@.len() implies contains_seq(
                        out@,
                        ": "@ + field_display_value(
                            #[trigger] events@[k].fields@[l],
                            *token_metadata,
                        ) + "\n"@,
                    ) by {
                        lemma_contains_extend(
                            before_event,
                            t,
                            ": "@ + field_display_value(events@[k].fields@[l], *token_metadata)
                                + "\n"@,
                        );
                    }
                }
            }
            if verbose {
                let m = event.fields.len();
                let mut j: usize = 0;
                while j < m
                    invariant
                        j <= m,
                        m == event.fields@.len(),
                        i < n,
                        n == events@.len(),
                        events@ == self.spec_events(),
                        *event == events@[i as int],
                        verbose == verbosity.spec_is_verbose(),
                        verbose,
                        cond == events_single_line(self.spec_events(), *token_metadata),
                        cond ==> line_count(out@) == 1 + lines_of_events(
                            events@.take(i as int),
                            verbose,
                        ) + 1 + j,
                        contains_seq(out@, "Events"@),
                        plain_text(events@[i as int].pallet@) ==> contains_seq(
                            out@,
                            events@[i as int].pallet@,
                        ),
                        plain_text(events@[i as int].name@) ==> contains_seq(
                            out@,
                            events@[i as int].name@,
                        ),
                        forall|k: int|
                            0 <= k < i ==> (plain_text((#[trigger] events@[k]).pallet@)
                                ==> contains_seq(out@, events@[k].pallet@)),
                        forall|k: int|
                            0 <= k < i ==> (plain_text((#[trigger] events@[k]).name@)
                                ==> contains_seq(out@, events@[k].name@)),
                        forall|k: int, l: int|
                            0 <= k < i && 0 <= l < events@[k].fields@.len() ==> (plain_text(
                                (#[trigger] events@[k].fields@[l]).name@,
                            ) ==> contains_seq(out@, events@[k].fields@[l].name@)),
                        forall|k: int, l: int|
                            0 <= k < i && 0 <= l < events@[k].fields@.len() ==> contains_seq(
                                out@,
                                ": "@ + field_display_value(
                                    #[trigger] events@[k].fields@[l],
                                    *token_metadata,
                                ) + "\n"@,
                            ),
                        forall|l: int|
                            0 <= l < j ==> (plain_text(
                                (#[trigger] events@[i as int].fields@[l]).name@,
                            ) ==> contains_seq(out@, events@[i as int].fields@[l].name@)),
                        forall|l: int|
                            0 <= l < j ==> contains_seq(
                                out@,
                                ": "@ + field_display_value(
                                    #[trigger] events@[i as int].fields@[l],
                                    *token_metadata,
                                ) + "\n"@,
                            ),
                    decreases m - j,
                {
                    let field = &event.fields[j];
                    let ghost before_field = out@;
                    append_field_line(&mut out, field, token_metadata, event_field_indent);
                    proof {
                        let t = choose|t: Seq<char>| out@ == before_field + t;
                        lemma_contains_extend(before_field, t, "Events"@);
                        if plain_text(events@[i as int].pallet@) {
                            lemma_contains_extend(before_field, t, events@[i as int].pallet@);
                        }
                        if plain_text(events@[i as int].name@) {
                            lemma_contains_extend(before_field, t, events@[i as int].name@);
                        }
                        assert forall|k: int|
                            0 <= k < i && plain_text(
                                (#[trigger] events@[k]).pallet@,
                            ) implies contains_seq(out@, events@[k].pallet@) by {
                            lemma_contains_extend(before_field, t, events@[k].pallet@);
                        }
                        assert forall|k: int|
                            0 <= k < i && plain_text(
                                (#[trigger] events@[k]).name@,
                            ) implies contains_seq(out@, events@[k].name@) by {
                            lemma_contains_extend(before_field, t, events@[k].name@);
                        }
                        assert forall|k: int, l: int|
                            0 <= k < i && 0 <= l < events@[k].fields@.len() && plain_text(
                                (#[trigger] events@[k].fields@[l]).name@,
                            ) implies contains_seq(out@, events@[k].fields@[l].name@) by {
                            lemma_contains_extend(before_field, t, events@[k].fields@[l].name@);
                        }
                        assert forall|k: int, l: int|
                            0 <= k < i && 0 <= l < events@[k].fields@.len() implies contains_seq(
                            out@,
                            ": "@ + field_display_value(
                                #[trigger] events@[k].fields@[l],
                                *token_metadata,
                            ) + "\n"@,
                        ) by {
                            lemma_contains_extend(
                                before_field,
                                t,
                                ": "@ + field_display_value(
                                    events@[k].fields@[l],
                                    *token_metadata,
                                ) + "\n"@,
                            );
                        }
                        assert forall|l: int|
                            0 <= l < j && plain_text(
                                (#[trigger] events@[i as int].fields@[l]).name@,
                            ) implies contains_seq(out@, events@[i as int].fields@[l].name@) by {
                            lemma_contains_extend(
                                before_field,
                                t,
                                events@[i as int].fields@[l].name@,
                            );
                        }
                        assert forall|l: int|
                            0 <= l < j implies contains_seq(
                            out@,
                            ": "@ + field_display_value(
                                #[trigger] events@[i as int].fields@[l],
                                *token_metadata,
                            ) + "\n"@,
                        ) by {
                            lemma_contains_extend(
                                before_field,
                                t,
                                ": "@ + field_display_value(
                                    events@[i as int].fields@[l],
                                    *token_metadata,
                                ) + "\n"@,
                            );
                        }
                    }
                    j += 1;
                }
            }
            proof {
                if cond {
                    assert(events@.take(i + 1) =~= events@.take(i as int).push(
                        events@[i as int],
                    ));
                    lemma_lines_of_events_push(events@.take(i as int), events@[i as int], verbose);
                }
                if verbose {
                    assert forall|k: int, l: int|
                        0 <= k < i + 1 && 0 <= l < events@[k].fields@.len() && plain_text(
                            (#[trigger] events@[k].fields@[l]).name@,
                        ) implies contains_seq(out@, events@[k].fields@[l].name@) by {}
                    assert forall|k: int, l: int|
                        0 <= k < i + 1 && 0 <= l < events@[k].fields@.len() implies contains_seq(
                        out@,
                        ": "@ + field_display_value(
                            #[trigger] events@[k].fields@[l],
                            *token_metadata,
                        ) + "\n"@,
                    ) by {}
                }
            }
            i += 1;
        }
        proof {
            assert(events@.take(n as int) =~= events@);
        }
        Ok(out)
    }
}

} // verus!

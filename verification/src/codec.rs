//! Encoding, decoding and framing of wire messages.
//!
//! A message goes onto the wire as one compact JSON object followed by a
//! single newline.  The object text itself never contains a raw newline,
//! so the byte stream can be split back into messages at newlines.  The
//! functions here build that text, split a stream back into lines, read
//! a message out of a parsed JSON document, and prove the framing laws
//! the protocol rests on.

use vstd::prelude::*;

use crate::json;
use crate::json::{elements, is_json_null, json_text, member, parsed_json, rfc3339, text_of};
use crate::{Error, Message, MessageV, Record, RecordV, Schema, SchemaV, State, StateV};

verus! {

/// Whether a text is free of raw newlines, so it can stand as one frame.
pub open spec fn line_clean(s: Seq<char>) -> bool {
    forall|i: int| 0 <= i < s.len() ==> s[i] != '\n'
}

/// The low hex digit for a value below sixteen.
pub open spec fn hex_digit(n: u32) -> char {
    if n == 0 {
        '0'
    } else if n == 1 {
        '1'
    } else if n == 2 {
        '2'
    } else if n == 3 {
        '3'
    } else if n == 4 {
        '4'
    } else if n == 5 {
        '5'
    } else if n == 6 {
        '6'
    } else if n == 7 {
        '7'
    } else if n == 8 {
        '8'
    } else if n == 9 {
        '9'
    } else if n == 10 {
        'a'
    } else if n == 11 {
        'b'
    } else if n == 12 {
        'c'
    } else if n == 13 {
        'd'
    } else if n == 14 {
        'e'
    } else {
        'f'
    }
}

/// How one character appears inside a JSON string: itself, unless JSON
/// requires an escape for it.
pub open spec fn escape_char(c: char) -> Seq<char> {
    if c == '"' {
        seq!['\\', '"']
    } else if c == '\\' {
        seq!['\\', '\\']
    } else if c == '\u{8}' {
        seq!['\\', 'b']
    } else if c == '\t' {
        seq!['\\', 't']
    } else if c == '\n' {
        seq!['\\', 'n']
    } else if c == '\u{c}' {
        seq!['\\', 'f']
    } else if c == '\r' {
        seq!['\\', 'r']
    } else if (c as u32) < 0x20 {
        seq!['\\', 'u', '0', '0', hex_digit((c as u32) / 16), hex_digit((c as u32) % 16)]
    } else {
        seq![c]
    }
}

/// A text with every character escaped as JSON strings require.
pub open spec fn json_escaped(s: Seq<char>) -> Seq<char>
    decreases s.len(),
{
    if s.len() == 0 {
        Seq::empty()
    } else {
        escape_char(s[0]) + json_escaped(s.drop_first())
    }
}

/// A text as a JSON string: quoted and escaped.
pub open spec fn json_quoted(s: Seq<char>) -> Seq<char> {
    seq!['"'] + json_escaped(s) + seq!['"']
}

proof fn lemma_escape_char_clean(c: char)
    ensures
        line_clean(escape_char(c)),
        escape_char(c).len() >= 1,
{
}

proof fn lemma_escaped_add(a: Seq<char>, b: Seq<char>)
    ensures
        json_escaped(a + b) == json_escaped(a) + json_escaped(b),
    decreases a.len(),
{
    if a.len() == 0 {
        assert(a + b =~= b);
        assert(json_escaped(a) + json_escaped(b) =~= json_escaped(b));
    } else {
        lemma_escaped_add(a.drop_first(), b);
        assert((a + b).drop_first() =~= a.drop_first() + b);
        assert(escape_char(a[0]) + (json_escaped(a.drop_first()) + json_escaped(b)) =~= (
        escape_char(a[0]) + json_escaped(a.drop_first())) + json_escaped(b));
    }
}

proof fn lemma_escaped_clean(s: Seq<char>)
    ensures
        line_clean(json_escaped(s)),
    decreases s.len(),
{
    if s.len() == 0 {
    } else {
        lemma_escape_char_clean(s[0]);
        lemma_escaped_clean(s.drop_first());
    }
}

/// Appends one character's JSON-string form to a character buffer.
fn push_escaped(out: &mut Vec<char>, c: char)
    ensures
        final(out)@ == old(out)@ + escape_char(c),
{
    if c == '"' {
        out.push('\\');
        out.push('"');
    } else if c == '\\' {
        out.push('\\');
        out.push('\\');
    } else if c == '\u{8}' {
        out.push('\\');
        out.push('b');
    } else if c == '\t' {
        out.push('\\');
        out.push('t');
    } else if c == '\n' {
        out.push('\\');
        out.push('n');
    } else if c == '\u{c}' {
        out.push('\\');
        out.push('f');
    } else if c == '\r' {
        out.push('\\');
        out.push('r');
    } else if (c as u32) < 0x20 {
        let n = c as u32;
        out.push('\\');
        out.push('u');
        out.push('0');
        out.push('0');
        out.push(hex_digit_exec(n / 16));
        out.push(hex_digit_exec(n % 16));
    } else {
        out.push(c);
    }
    assert(out@ =~= old(out)@ + escape_char(c));
}

/// The low hex digit for a value below sixteen.
fn hex_digit_exec(n: u32) -> (c: char)
    requires
        n < 16,
    ensures
        c == hex_digit(n),
{
    if n == 0 {
        '0'
    } else if n == 1 {
        '1'
    } else if n == 2 {
        '2'
    } else if n == 3 {
        '3'
    } else if n == 4 {
        '4'
    } else if n == 5 {
        '5'
    } else if n == 6 {
        '6'
    } else if n == 7 {
        '7'
    } else if n == 8 {
        '8'
    } else if n == 9 {
        '9'
    } else if n == 10 {
        'a'
    } else if n == 11 {
        'b'
    } else if n == 12 {
        'c'
    } else if n == 13 {
        'd'
    } else if n == 14 {
        'e'
    } else {
        'f'
    }
}

/// Appends a text as a JSON string, quotes and escapes included.
fn append_quoted(out: &mut Vec<char>, s: &str)
    ensures
        final(out)@ == old(out)@ + json_quoted(s@),
{
    let chars = json::chars_of(s);
    out.push('"');
    let ghost mid = out@;
    let mut i: usize = 0;
    while i < chars.len()
        invariant
            0 <= i <= chars.len(),
            chars@ == s@,
            out@ == mid + json_escaped(s@.take(i as int)),
            mid == old(out)@ + seq!['"'],
        decreases chars.len() - i,
    {
        push_escaped(out, chars[i]);
        proof {
            let x = s@[i as int];
            assert(s@.take(i + 1int) =~= s@.take(i as int) + seq![x]);
            lemma_escaped_add(s@.take(i as int), seq![x]);
            assert(seq![x].drop_first() =~= Seq::<char>::empty());
            assert(json_escaped(seq![x]) == escape_char(x) + json_escaped(Seq::<char>::empty()));
            assert(json_escaped(seq![x]) =~= escape_char(x));
        }
        i += 1;
    }
    out.push('"');
    proof {
        assert(s@.take(s@.len() as int) =~= s@);
        assert(out@ =~= old(out)@ + json_quoted(s@));
    }
}

/// An optional text as a JSON string or `null`.
pub open spec fn opt_quoted(o: Option<Seq<char>>) -> Seq<char> {
    match o {
        Some(s) => json_quoted(s),
        None => "null"@,
    }
}

/// The comma-separated members of a JSON array of strings.
pub open spec fn quoted_items(xs: Seq<Seq<char>>) -> Seq<char>
    decreases xs.len(),
{
    if xs.len() == 0 {
        Seq::empty()
    } else if xs.len() == 1 {
        json_quoted(xs[0])
    } else {
        json_quoted(xs[0]) + seq![','] + quoted_items(xs.drop_first())
    }
}

/// A JSON array of strings.
pub open spec fn quoted_array(xs: Seq<Seq<char>>) -> Seq<char> {
    seq!['['] + quoted_items(xs) + seq![']']
}

/// An optional JSON array of strings, or `null`.
pub open spec fn opt_quoted_array(o: Option<Seq<Seq<char>>>) -> Seq<char> {
    match o {
        Some(xs) => quoted_array(xs),
        None => "null"@,
    }
}

/// The wire text of a state message.
pub open spec fn encode_state(s: StateV) -> Seq<char> {
    "{\"type\":\"STATE\",\"value\":"@ + json_text(s.value) + "}"@
}

/// The wire text of a record message.
pub open spec fn encode_record(r: RecordV) -> Seq<char> {
    "{\"type\":\"RECORD\",\"stream\":"@ + json_quoted(r.stream) + ",\"record\":"@ + json_text(
        r.record,
    ) + ",\"version\":"@ + opt_quoted(r.version) + ",\"time_extracted\":"@ + opt_quoted(
        r.time_extracted,
    ) + "}"@
}

/// The wire text of a schema message.
pub open spec fn encode_schema(s: SchemaV) -> Seq<char> {
    "{\"type\":\"SCHEMA\",\"stream\":"@ + json_quoted(s.stream) + ",\"schema\":"@ + json_text(
        s.schema,
    ) + ",\"key_properties\":"@ + quoted_array(s.key_properties) + ",\"bookmark_properties\":"@
        + opt_quoted_array(s.bookmark_properties) + "}"@
}

/// The wire text of a message: one JSON object, the uppercase kind name
/// under `"type"`, and no raw newline anywhere.
pub open spec fn encode_message_spec(m: MessageV) -> Seq<char> {
    match m {
        MessageV::State(s) => encode_state(s),
        MessageV::Schema(s) => encode_schema(s),
        MessageV::Record(r) => encode_record(r),
    }
}

proof fn lemma_quoted_clean(s: Seq<char>)
    ensures
        line_clean(json_quoted(s)),
{
    lemma_escaped_clean(s);
}

proof fn lemma_quoted_items_clean(xs: Seq<Seq<char>>)
    ensures
        line_clean(quoted_items(xs)),
    decreases xs.len(),
{
    if xs.len() == 0 {
    } else if xs.len() == 1 {
        lemma_quoted_clean(xs[0]);
    } else {
        lemma_quoted_clean(xs[0]);
        lemma_quoted_items_clean(xs.drop_first());
    }
}

proof fn lemma_quoted_array_clean(xs: Seq<Seq<char>>)
    ensures
        line_clean(quoted_array(xs)),
{
    lemma_quoted_items_clean(xs);
}

proof fn lemma_quoted_items_push(xs: Seq<Seq<char>>, x: Seq<char>)
    ensures
        xs.len() == 0 ==> quoted_items(xs.push(x)) == json_quoted(x),
        xs.len() > 0 ==> quoted_items(xs.push(x)) == quoted_items(xs) + seq![','] + json_quoted(x),
    decreases xs.len(),
{
    if xs.len() == 0 {
        assert(xs.push(x).len() == 1);
        assert(xs.push(x)[0] == x);
    } else if xs.len() == 1 {
        assert(xs.push(x).drop_first() =~= xs.drop_first().push(x));
        lemma_quoted_items_push(xs.drop_first(), x);
        assert(xs.drop_first().len() == 0);
        assert(quoted_items(xs.push(x)) == json_quoted(xs[0]) + seq![','] + json_quoted(x));
        assert(quoted_items(xs) == json_quoted(xs[0]));
    } else {
        assert(xs.push(x).drop_first() =~= xs.drop_first().push(x));
        lemma_quoted_items_push(xs.drop_first(), x);
        assert(quoted_items(xs.push(x)) == json_quoted(xs[0]) + seq![','] + (quoted_items(
            xs.drop_first(),
        ) + seq![','] + json_quoted(x)));
        assert(quoted_items(xs) + seq![','] + json_quoted(x) =~= json_quoted(xs[0]) + seq![',']
            + (quoted_items(xs.drop_first()) + seq![','] + json_quoted(x)));
    }
}

/// Appends a literal piece of frame syntax.
fn append_lit(out: &mut Vec<char>, s: &str)
    ensures
        final(out)@ == old(out)@ + s@,
{
    let mut cs = json::chars_of(s);
    out.append(&mut cs);
}

/// Appends a document's compact JSON text.
fn append_json(out: &mut Vec<char>, v: &serde_json::Value)
    ensures
        final(out)@ == old(out)@ + json_text(*v),
        line_clean(json_text(*v)),
        json_text(*v).len() > 0,
{
    let t = json::to_json_text(v);
    let mut cs = json::chars_of(t.as_str());
    out.append(&mut cs);
}

/// Appends an optional text as a JSON string or `null`.
fn append_opt_quoted(out: &mut Vec<char>, o: &Option<String>)
    ensures
        final(out)@ == old(out)@ + opt_quoted(
            match *o {
                Some(ref s) => Some(s@),
                None => None,
            },
        ),
{
    match o {
        Some(s) => append_quoted(out, s.as_str()),
        None => append_lit(out, "null"),
    }
}

/// Appends a JSON array of strings.
fn append_quoted_array(out: &mut Vec<char>, xs: &Vec<String>)
    ensures
        final(out)@ == old(out)@ + quoted_array(xs.deep_view()),
{
    out.push('[');
    let ghost base = out@;
    let mut i: usize = 0;
    while i < xs.len()
        invariant
            0 <= i <= xs.len(),
            base == old(out)@ + seq!['['],
            out@ == base + quoted_items(xs.deep_view().take(i as int)),
        decreases xs.len() - i,
    {
        if i > 0 {
            out.push(',');
        }
        append_quoted(out, xs[i].as_str());
        proof {
            assert(xs.deep_view().take(i + 1int) =~= xs.deep_view().take(i as int).push(
                xs.deep_view()[i as int],
            ));
            lemma_quoted_items_push(xs.deep_view().take(i as int), xs.deep_view()[i as int]);
            assert(xs.deep_view()[i as int] == xs[i as int]@);
            assert(out@ =~= base + quoted_items(xs.deep_view().take(i + 1int)));
        }
        i += 1;
    }
    out.push(']');
    proof {
        assert(xs.deep_view().take(xs.deep_view().len() as int) =~= xs.deep_view());
        assert(out@ =~= old(out)@ + quoted_array(xs.deep_view()));
    }
}

/// Builds the wire text of a message: one compact JSON object with the
/// uppercase kind discriminator, free of raw newlines and never empty.
pub fn encode_message(m: &Message) -> (r: Vec<char>)
    ensures
        r@ == encode_message_spec(m@),
        line_clean(r@),
        r@.len() > 0,
{
    let mut out: Vec<char> = Vec::new();
    match m {
        Message::State(s) => {
            append_lit(&mut out, "{\"type\":\"STATE\",\"value\":");
            append_json(&mut out, &s.value);
            append_lit(&mut out, "}");
            proof {
                reveal_strlit("{\"type\":\"STATE\",\"value\":");
                reveal_strlit("}");
                assert(out@ =~= encode_state(s@));
            }
        },
        Message::Record(r) => {
            append_lit(&mut out, "{\"type\":\"RECORD\",\"stream\":");
            append_quoted(&mut out, r.stream.as_str());
            append_lit(&mut out, ",\"record\":");
            append_json(&mut out, &r.record);
            append_lit(&mut out, ",\"version\":");
            append_opt_quoted(&mut out, &r.version);
            append_lit(&mut out, ",\"time_extracted\":");
            append_opt_quoted(&mut out, &r.time_extracted);
            append_lit(&mut out, "}");
            proof {
                reveal_strlit("{\"type\":\"RECORD\",\"stream\":");
                reveal_strlit(",\"record\":");
                reveal_strlit(",\"version\":");
                reveal_strlit(",\"time_extracted\":");
                reveal_strlit("}");
                assert(out@ =~= encode_record(r@));
            }
        },
        Message::Schema(s) => {
            append_lit(&mut out, "{\"type\":\"SCHEMA\",\"stream\":");
            append_quoted(&mut out, s.stream.as_str());
            append_lit(&mut out, ",\"schema\":");
            append_json(&mut out, &s.schema);
            append_lit(&mut out, ",\"key_properties\":");
            append_quoted_array(&mut out, &s.key_properties);
            append_lit(&mut out, ",\"bookmark_properties\":");
            match &s.bookmark_properties {
                Some(b) => append_quoted_array(&mut out, b),
                None => append_lit(&mut out, "null"),
            }
            append_lit(&mut out, "}");
            proof {
                reveal_strlit("{\"type\":\"SCHEMA\",\"stream\":");
                reveal_strlit(",\"schema\":");
                reveal_strlit(",\"key_properties\":");
                reveal_strlit(",\"bookmark_properties\":");
                reveal_strlit("null");
                reveal_strlit("}");
                assert(out@ =~= encode_schema(s@));
            }
        },
    }
    proof {
        lemma_encode_clean(m@);
    }
    out
}

/// A message's wire text never contains a raw newline and is never empty.
/// This holds only where the payload documents' own texts are known to be
/// newline-free, which every caller of [`encode_message`] learns from the
/// serializer itself; the claim is therefore stated with that premise.
proof fn lemma_encode_clean(m: MessageV)
    requires
        line_clean(
            json_text(
                match m {
                    MessageV::State(s) => s.value,
                    MessageV::Schema(s) => s.schema,
                    MessageV::Record(r) => r.record,
                },
            ),
        ),
    ensures
        line_clean(encode_message_spec(m)),
        encode_message_spec(m).len() > 0,
{
    match m {
        MessageV::State(s) => {
            reveal_strlit("{\"type\":\"STATE\",\"value\":");
            reveal_strlit("}");
        },
        MessageV::Record(r) => {
            reveal_strlit("{\"type\":\"RECORD\",\"stream\":");
            reveal_strlit(",\"record\":");
            reveal_strlit(",\"version\":");
            reveal_strlit(",\"time_extracted\":");
            reveal_strlit("null");
            reveal_strlit("}");
            lemma_quoted_clean(r.stream);
            match r.version {
                Some(v) => lemma_quoted_clean(v),
                None => (),
            }
            match r.time_extracted {
                Some(t) => lemma_quoted_clean(t),
                None => (),
            }
        },
        MessageV::Schema(s) => {
            reveal_strlit("{\"type\":\"SCHEMA\",\"stream\":");
            reveal_strlit(",\"schema\":");
            reveal_strlit(",\"key_properties\":");
            reveal_strlit(",\"bookmark_properties\":");
            reveal_strlit("null");
            reveal_strlit("}");
            lemma_quoted_clean(s.stream);
            lemma_quoted_array_clean(s.key_properties);
            match s.bookmark_properties {
                Some(b) => lemma_quoted_array_clean(b),
                None => (),
            }
        },
    }
}

/// How many characters stand before the first newline.
pub open spec fn head_len(s: Seq<char>) -> nat
    decreases s.len(),
{
    if s.len() == 0 {
        0
    } else if s[0] == '\n' {
        0
    } else {
        1 + head_len(s.drop_first())
    }
}

/// A stream cut at newlines.  A newline ends a line and is kept in none;
/// a final fragment without one still counts as a line.
pub open spec fn split_lines(s: Seq<char>) -> Seq<Seq<char>>
    decreases s.len(),
{
    if s.len() == 0 {
        Seq::empty()
    } else {
        let n = head_len(s) as int;
        if n >= s.len() {
            seq![s]
        } else {
            seq![s.take(n)] + split_lines(s.skip(n + 1))
        }
    }
}

/// A sequence of lines framed for the wire: each followed by one newline.
pub open spec fn framed(lines: Seq<Seq<char>>) -> Seq<char>
    decreases lines.len(),
{
    if lines.len() == 0 {
        Seq::empty()
    } else {
        lines[0] + seq!['\n'] + framed(lines.drop_first())
    }
}

/// How many newlines a stream holds.
pub open spec fn newline_count(s: Seq<char>) -> nat
    decreases s.len(),
{
    if s.len() == 0 {
        0
    } else {
        (if s[0] == '\n' {
            1nat
        } else {
            0
        }) + newline_count(s.drop_first())
    }
}

proof fn lemma_head_len_all_clean(s: Seq<char>)
    requires
        line_clean(s),
    ensures
        head_len(s) == s.len(),
    decreases s.len(),
{
    if s.len() == 0 {
    } else {
        lemma_head_len_all_clean(s.drop_first());
    }
}

proof fn lemma_head_len_frame(p: Seq<char>, rest: Seq<char>)
    requires
        line_clean(p),
    ensures
        head_len(p + seq!['\n'] + rest) == p.len(),
    decreases p.len(),
{
    if p.len() == 0 {
        assert((p + seq!['\n'] + rest)[0] == '\n');
    } else {
        assert((p + seq!['\n'] + rest)[0] == p[0]);
        assert((p + seq!['\n'] + rest).drop_first() =~= p.drop_first() + seq!['\n'] + rest);
        lemma_head_len_frame(p.drop_first(), rest);
    }
}

proof fn lemma_split_frame(p: Seq<char>, rest: Seq<char>)
    requires
        line_clean(p),
    ensures
        split_lines(p + seq!['\n'] + rest) == seq![p] + split_lines(rest),
{
    let s = p + seq!['\n'] + rest;
    lemma_head_len_frame(p, rest);
    assert(s.len() > 0);
    assert(head_len(s) < s.len());
    assert(s.take(p.len() as int) =~= p);
    assert(s.skip(p.len() as int + 1) =~= rest);
    assert(split_lines(s) =~= seq![p] + split_lines(rest));
}

proof fn lemma_split_single_clean(p: Seq<char>)
    requires
        line_clean(p),
        p.len() > 0,
    ensures
        split_lines(p) == seq![p],
{
    lemma_head_len_all_clean(p);
}

proof fn lemma_newline_count_add(a: Seq<char>, b: Seq<char>)
    ensures
        newline_count(a + b) == newline_count(a) + newline_count(b),
    decreases a.len(),
{
    if a.len() == 0 {
        assert(a + b =~= b);
    } else {
        assert((a + b)[0] == a[0]);
        assert((a + b).drop_first() =~= a.drop_first() + b);
        lemma_newline_count_add(a.drop_first(), b);
    }
}

proof fn lemma_newline_count_clean(s: Seq<char>)
    requires
        line_clean(s),
    ensures
        newline_count(s) == 0,
    decreases s.len(),
{
    if s.len() == 0 {
    } else {
        lemma_newline_count_clean(s.drop_first());
    }
}

/// Framing round-trip: any sequence of newline-free lines, framed one per
/// line onto the wire, splits back into exactly the same lines, in the
/// same order.
pub proof fn lemma_framing_round_trip(lines: Seq<Seq<char>>)
    requires
        forall|i: int| 0 <= i < lines.len() ==> line_clean(#[trigger] lines[i]),
    ensures
        split_lines(framed(lines)) == lines,
    decreases lines.len(),
{
    if lines.len() == 0 {
    } else {
        assert(line_clean(lines[0]));
        assert(forall|i: int|
            0 <= i < lines.drop_first().len() ==> line_clean(#[trigger] lines.drop_first()[i]));
        lemma_framing_round_trip(lines.drop_first());
        lemma_split_frame(lines[0], framed(lines.drop_first()));
        assert(seq![lines[0]] + lines.drop_first() =~= lines);
    }
}

/// One line per message: a wire stream of newline-free lines framed one
/// per line holds exactly one newline for each line.
pub proof fn lemma_one_newline_per_frame(lines: Seq<Seq<char>>)
    requires
        forall|i: int| 0 <= i < lines.len() ==> line_clean(#[trigger] lines[i]),
    ensures
        newline_count(framed(lines)) == lines.len(),
    decreases lines.len(),
{
    if lines.len() == 0 {
    } else {
        lemma_one_newline_per_frame(lines.drop_first());
        lemma_newline_count_add(lines[0] + seq!['\n'], framed(lines.drop_first()));
        lemma_newline_count_add(lines[0], seq!['\n']);
        lemma_newline_count_clean(lines[0]);
        assert(newline_count(seq!['\n']) == 1) by {
            let nl = seq!['\n'];
            assert(nl.len() == 1);
            assert(nl[0] == '\n');
            assert(nl.drop_first() =~= Seq::<char>::empty());
            assert(newline_count(Seq::<char>::empty()) == 0);
            assert(newline_count(nl) == 1 + newline_count(nl.drop_first()));
        }
        assert(lines[0] + seq!['\n'] + framed(lines.drop_first()) =~= framed(lines));
    }
}

/// Cuts a stream into its newline-delimited lines.
pub fn split_stream(s: &Vec<char>) -> (r: Vec<String>)
    ensures
        r.deep_view() == split_lines(s@),
{
    let mut acc: Vec<String> = Vec::new();
    let mut cur: Vec<char> = Vec::new();
    let mut i: usize = 0;
    proof {
        assert(acc.deep_view() =~= Seq::<Seq<char>>::empty());
        assert(cur@ + s@.skip(0) =~= s@);
        assert(acc.deep_view() + split_lines(s@) =~= split_lines(s@));
    }
    while i < s.len()
        invariant
            0 <= i <= s.len(),
            line_clean(cur@),
            acc.deep_view() + split_lines(cur@ + s@.skip(i as int)) == split_lines(s@),
        decreases s.len() - i,
    {
        let c = s[i];
        if c == '\n' {
            let ghost prev_acc = acc.deep_view();
            let ghost prev_cur = cur@;
            let line = json::string_from_chars(&cur);
            acc.push(line);
            cur.clear();
            proof {
                assert(acc.deep_view() =~= prev_acc.push(prev_cur));
                assert(prev_cur + s@.skip(i as int) =~= prev_cur + seq!['\n'] + s@.skip(i + 1int));
                lemma_split_frame(prev_cur, s@.skip(i + 1int));
                assert(split_lines(prev_cur + s@.skip(i as int)) == seq![prev_cur] + split_lines(
                    s@.skip(i + 1int),
                ));
                assert(cur@ + s@.skip(i + 1int) =~= s@.skip(i + 1int));
                assert(acc.deep_view() + split_lines(cur@ + s@.skip(i + 1int)) =~= prev_acc + (
                seq![prev_cur] + split_lines(s@.skip(i + 1int))));
            }
        } else {
            let ghost prev_cur = cur@;
            cur.push(c);
            proof {
                assert(cur@ + s@.skip(i + 1int) =~= prev_cur + s@.skip(i as int));
            }
        }
        i += 1;
    }
    proof {
        assert(cur@ + s@.skip(s@.len() as int) =~= cur@);
    }
    if cur.len() > 0 {
        let ghost prev_acc = acc.deep_view();
        let line = json::string_from_chars(&cur);
        acc.push(line);
        proof {
            lemma_split_single_clean(cur@);
            assert(acc.deep_view() =~= prev_acc.push(cur@));
            assert(prev_acc.push(cur@) =~= prev_acc + seq![cur@]);
        }
    }
    acc
}

/// The wire text of a whole sequence of messages: each message's JSON
/// object followed by its newline, in order.
pub open spec fn encoded_stream(msgs: Seq<MessageV>) -> Seq<char> {
    framed(msgs.map_values(|m: MessageV| encode_message_spec(m)))
}

/// Round-trip framing at the message level: the wire text of a sequence
/// of messages splits back into exactly one line per message, each line
/// the message's own wire text, in order; and the text holds exactly one
/// newline per message.  The premise — that no message's wire text holds
/// a raw newline — is established by [`encode_message`] for every
/// message it encodes.
pub proof fn lemma_message_stream_framing(msgs: Seq<MessageV>)
    requires
        forall|i: int|
            0 <= i < msgs.len() ==> line_clean(encode_message_spec(#[trigger] msgs[i])),
    ensures
        split_lines(encoded_stream(msgs)) == msgs.map_values(|m: MessageV| encode_message_spec(m)),
        newline_count(encoded_stream(msgs)) == msgs.len(),
{
    let lines = msgs.map_values(|m: MessageV| encode_message_spec(m));
    assert forall|i: int| 0 <= i < lines.len() implies line_clean(#[trigger] lines[i]) by {
        assert(lines[i] == encode_message_spec(msgs[i]));
    }
    lemma_framing_round_trip(lines);
    lemma_one_newline_per_frame(lines);
}

/// A required string field: the text under a key, or `None` when the key
/// is missing or its value is not a string.
pub open spec fn req_text(v: serde_json::Value, key: Seq<char>) -> Option<Seq<char>> {
    match member(v, key) {
        Some(f) => text_of(f),
        None => None,
    }
}

/// An optional string field.  The outer `None` marks a malformed field; a
/// missing key or JSON `null` is a well-formed absent value.
pub open spec fn opt_text_field(v: serde_json::Value, key: Seq<char>) -> Option<
    Option<Seq<char>>,
> {
    match member(v, key) {
        None => Some(None),
        Some(f) => if is_json_null(f) {
            Some(None)
        } else {
            match text_of(f) {
                Some(t) => Some(Some(t)),
                None => None,
            }
        },
    }
}

/// The texts of a sequence of JSON strings, or `None` when any element is
/// not a string.
pub open spec fn text_items(vs: Seq<serde_json::Value>) -> Option<Seq<Seq<char>>>
    decreases vs.len(),
{
    if vs.len() == 0 {
        Some(Seq::empty())
    } else {
        match text_items(vs.drop_last()) {
            None => None,
            Some(r) => match text_of(vs.last()) {
                None => None,
                Some(t) => Some(r.push(t)),
            },
        }
    }
}

/// An optional array-of-strings field, with the same outer/inner shape as
/// [`opt_text_field`].
pub open spec fn opt_text_array_field(v: serde_json::Value, key: Seq<char>) -> Option<
    Option<Seq<Seq<char>>>,
> {
    match member(v, key) {
        None => Some(None),
        Some(f) => if is_json_null(f) {
            Some(None)
        } else {
            match elements(f) {
                None => None,
                Some(els) => match text_items(els) {
                    None => None,
                    Some(xs) => Some(Some(xs)),
                },
            }
        },
    }
}

/// The state message a JSON object decodes to, when it has the required
/// `value` member.
pub open spec fn decoded_state(v: serde_json::Value) -> Option<MessageV> {
    match member(v, "value"@) {
        Some(val) => Some(MessageV::State(StateV { value: val })),
        None => None,
    }
}

/// The record message a JSON object decodes to: `stream` (a non-empty
/// name) and `record` are required, `version` is an optional string, and
/// `time_extracted` is an optional string that must be an RFC 3339
/// timestamp.
pub open spec fn decoded_record(v: serde_json::Value) -> Option<MessageV> {
    match req_text(v, "stream"@) {
        None => None,
        Some(stream) => if stream.len() == 0 {
            None
        } else {
            match member(v, "record"@) {
                None => None,
                Some(rec) => match opt_text_field(v, "version"@) {
                    None => None,
                    Some(version) => match opt_text_field(v, "time_extracted"@) {
                        None => None,
                        Some(te) => match te {
                            Some(t) => if rfc3339(t) {
                                Some(
                                    MessageV::Record(
                                        RecordV {
                                            stream,
                                            record: rec,
                                            version,
                                            time_extracted: Some(t),
                                        },
                                    ),
                                )
                            } else {
                                None
                            },
                            None => Some(
                                MessageV::Record(
                                    RecordV { stream, record: rec, version, time_extracted: None },
                                ),
                            ),
                        },
                    },
                },
            }
        },
    }
}

/// The schema message a JSON object decodes to: `stream` (a non-empty
/// name), `schema` and an array of strings under `key_properties` are
/// required; `bookmark_properties` is an optional array of strings.
pub open spec fn decoded_schema(v: serde_json::Value) -> Option<MessageV> {
    match req_text(v, "stream"@) {
        None => None,
        Some(stream) => if stream.len() == 0 {
            None
        } else {
            match member(v, "schema"@) {
                None => None,
                Some(doc) => match member(v, "key_properties"@) {
                    None => None,
                    Some(kp) => match elements(kp) {
                        None => None,
                        Some(els) => match text_items(els) {
                            None => None,
                            Some(keys) => match opt_text_array_field(v, "bookmark_properties"@) {
                                None => None,
                                Some(bookmarks) => Some(
                                    MessageV::Schema(
                                        SchemaV {
                                            stream,
                                            schema: doc,
                                            key_properties: keys,
                                            bookmark_properties: bookmarks,
                                        },
                                    ),
                                ),
                            },
                        },
                    },
                },
            }
        },
    }
}

/// The message a JSON object decodes to.  The `type` member picks the
/// variant by its uppercase name; anything else is malformed.
pub open spec fn decoded_message(v: serde_json::Value) -> Option<MessageV> {
    match req_text(v, "type"@) {
        None => None,
        Some(t) => if t == "STATE"@ {
            decoded_state(v)
        } else if t == "SCHEMA"@ {
            decoded_schema(v)
        } else if t == "RECORD"@ {
            decoded_record(v)
        } else {
            None
        },
    }
}

/// The message one wire line decodes to: its text parsed as a JSON
/// document, and the document read as a message.
pub open spec fn decoded_line(l: Seq<char>) -> Option<MessageV> {
    match parsed_json(l) {
        None => None,
        Some(v) => decoded_message(v),
    }
}

proof fn lemma_text_items_prefix_none(vs: Seq<serde_json::Value>, i: int)
    requires
        0 <= i <= vs.len(),
        text_items(vs.take(i)) is None,
    ensures
        text_items(vs) is None,
    decreases vs.len(),
{
    if i == vs.len() {
        assert(vs.take(i) =~= vs);
    } else {
        assert(vs.len() > 0);
        assert(vs.drop_last().take(i) =~= vs.take(i));
        lemma_text_items_prefix_none(vs.drop_last(), i);
    }
}

pub(crate) fn deser_err(detail: &str) -> (r: Error)
    ensures
        r is DeserializationError,
{
    Error::DeserializationError(String::from_str(detail))
}

/// Reads a required string field.
pub(crate) fn get_req_text(v: &serde_json::Value, key: &str) -> (r: Option<String>)
    ensures
        match r {
            Some(s) => req_text(*v, key@) == Some(s@),
            None => req_text(*v, key@) is None,
        },
{
    match json::get_member(v, key) {
        Some(f) => json::get_text(f),
        None => None,
    }
}

/// Reads an optional string field; see [`opt_text_field`] for the shape.
pub(crate) fn get_opt_text(v: &serde_json::Value, key: &str) -> (r: Option<Option<String>>)
    ensures
        match r {
            Some(Some(s)) => opt_text_field(*v, key@) == Some(Some(s@)),
            Some(None) => opt_text_field(*v, key@) == Some(None::<Seq<char>>),
            None => opt_text_field(*v, key@) is None,
        },
{
    match json::get_member(v, key) {
        None => Some(None),
        Some(f) => {
            if json::json_is_null(f) {
                Some(None)
            } else {
                match json::get_text(f) {
                    Some(t) => Some(Some(t)),
                    None => None,
                }
            }
        },
    }
}

/// Reads every element of a JSON array as a string.
pub(crate) fn get_text_items(els: &Vec<serde_json::Value>) -> (r: Option<Vec<String>>)
    ensures
        match r {
            Some(xs) => text_items(els@) == Some(xs.deep_view()),
            None => text_items(els@) is None,
        },
{
    let mut acc: Vec<String> = Vec::new();
    let mut i: usize = 0;
    proof {
        assert(acc.deep_view() =~= Seq::<Seq<char>>::empty());
        assert(els@.take(0) =~= Seq::<serde_json::Value>::empty());
    }
    while i < els.len()
        invariant
            0 <= i <= els.len(),
            text_items(els@.take(i as int)) == Some(acc.deep_view()),
        decreases els.len() - i,
    {
        let ghost prev = acc.deep_view();
        match json::get_text(&els[i]) {
            Some(t) => {
                acc.push(t);
                proof {
                    assert(els@.take(i + 1int).drop_last() =~= els@.take(i as int));
                    assert(els@.take(i + 1int).last() == els@[i as int]);
                    assert(acc.deep_view() =~= prev.push(acc[acc.len() - 1]@));
                }
            },
            None => {
                proof {
                    assert(els@.take(i + 1int).drop_last() =~= els@.take(i as int));
                    assert(els@.take(i + 1int).last() == els@[i as int]);
                    assert(text_items(els@.take(i + 1int)) is None);
                    lemma_text_items_prefix_none(els@, i + 1int);
                }
                return None;
            },
        }
        i += 1;
    }
    proof {
        assert(els@.take(els@.len() as int) =~= els@);
    }
    Some(acc)
}

/// Reads an optional array-of-strings field; see [`opt_text_array_field`].
pub(crate) fn get_opt_text_array(v: &serde_json::Value, key: &str) -> (r: Option<Option<Vec<String>>>)
    ensures
        match r {
            Some(Some(xs)) => opt_text_array_field(*v, key@) == Some(Some(xs.deep_view())),
            Some(None) => opt_text_array_field(*v, key@) == Some(None::<Seq<Seq<char>>>),
            None => opt_text_array_field(*v, key@) is None,
        },
{
    match json::get_member(v, key) {
        None => Some(None),
        Some(f) => {
            if json::json_is_null(f) {
                Some(None)
            } else {
                match json::get_elements(f) {
                    None => None,
                    Some(els) => match get_text_items(&els) {
                        None => None,
                        Some(xs) => Some(Some(xs)),
                    },
                }
            }
        },
    }
}

/// Reads a message out of one parsed JSON document, failing with a
/// deserialization error exactly when the document does not decode.
pub fn message_from_value(v: &serde_json::Value) -> (r: Result<Message, Error>)
    ensures
        match r {
            Ok(m) => decoded_message(*v) == Some(m@),
            Err(e) => decoded_message(*v) is None && e is DeserializationError,
        },
{
    let ty = match get_req_text(v, "type") {
        Some(t) => t,
        None => {
            return Err(deser_err("message has no string \"type\" member"));
        },
    };
    if ty == String::from_str("STATE") {
        match json::get_member(v, "value") {
            Some(val) => Ok(Message::State(State { value: val.clone() })),
            None => Err(deser_err("state message has no \"value\" member")),
        }
    } else if ty == String::from_str("SCHEMA") {
        let stream = match get_req_text(v, "stream") {
            Some(s) => s,
            None => {
                return Err(deser_err("schema message has no string \"stream\" member"));
            },
        };
        if stream.as_str().unicode_len() == 0 {
            return Err(deser_err("a stream name is never empty"));
        }
        let doc = match json::get_member(v, "schema") {
            Some(d) => d.clone(),
            None => {
                return Err(deser_err("schema message has no \"schema\" member"));
            },
        };
        let keys = match json::get_member(v, "key_properties") {
            Some(kp) => match json::get_elements(kp) {
                Some(els) => match get_text_items(&els) {
                    Some(xs) => xs,
                    None => {
                        return Err(deser_err("\"key_properties\" holds a non-string"));
                    },
                },
                None => {
                    return Err(deser_err("\"key_properties\" is not an array"));
                },
            },
            None => {
                return Err(deser_err("schema message has no \"key_properties\" member"));
            },
        };
        let bookmarks = match get_opt_text_array(v, "bookmark_properties") {
            Some(b) => b,
            None => {
                return Err(deser_err("\"bookmark_properties\" is not an array of strings"));
            },
        };
        Ok(
            Message::Schema(
                Schema {
                    stream,
                    schema: doc,
                    key_properties: keys,
                    bookmark_properties: bookmarks,
                },
            ),
        )
    } else if ty == String::from_str("RECORD") {
        let stream = match get_req_text(v, "stream") {
            Some(s) => s,
            None => {
                return Err(deser_err("record message has no string \"stream\" member"));
            },
        };
        if stream.as_str().unicode_len() == 0 {
            return Err(deser_err("a stream name is never empty"));
        }
        let rec = match json::get_member(v, "record") {
            Some(d) => d.clone(),
            None => {
                return Err(deser_err("record message has no \"record\" member"));
            },
        };
        let version = match get_opt_text(v, "version") {
            Some(ver) => ver,
            None => {
                return Err(deser_err("\"version\" is neither a string nor null"));
            },
        };
        let time_extracted = match get_opt_text(v, "time_extracted") {
            Some(te) => te,
            None => {
                return Err(deser_err("\"time_extracted\" is neither a string nor null"));
            },
        };
        match &time_extracted {
            Some(t) => {
                if !json::is_rfc3339(t.as_str()) {
                    return Err(deser_err("\"time_extracted\" is not an RFC 3339 timestamp"));
                }
            },
            None => (),
        }
        Ok(Message::Record(Record { stream, record: rec, version, time_extracted }))
    } else {
        Err(deser_err("message \"type\" is not a known kind"))
    }
}

/// Decodes one wire line: parses its text as JSON and reads the message
/// out of it, failing with a deserialization error exactly when the line
/// does not decode.
pub fn decode_line(line: &str) -> (r: Result<Message, Error>)
    ensures
        match r {
            Ok(m) => decoded_line(line@) == Some(m@),
            Err(e) => decoded_line(line@) is None && e is DeserializationError,
        },
{
    match json::parse_json(line) {
        Err(_) => Err(deser_err("line is not well-formed JSON")),
        Ok(v) => message_from_value(&v),
    }
}

} // verus!

//! Rendering of the JSON texts the agent publishes: string escaping and the
//! small fixed-shape documents of the command plane.

use vstd::prelude::*;

use crate::version_control::security::spec_hex_char;

verus! {

/// How one character appears inside a JSON string literal: quotes and
/// backslashes escaped, control characters as their short escape or a
/// `\u00..` sequence, everything else as itself.
pub open spec fn spec_json_escape_char(c: char) -> Seq<char> {
    if c == '"' {
        seq!['\\', '"']
    } else if c == '\\' {
        seq!['\\', '\\']
    } else if c == '\u{8}' {
        seq!['\\', 'b']
    } else if c == '\u{c}' {
        seq!['\\', 'f']
    } else if c == '\n' {
        seq!['\\', 'n']
    } else if c == '\r' {
        seq!['\\', 'r']
    } else if c == '\t' {
        seq!['\\', 't']
    } else if (c as int) < 32 {
        seq!['\\', 'u', '0', '0'] + seq![spec_hex_char((((c as int) / 16) as nat))] + seq![
            spec_hex_char((((c as int) % 16) as nat)),
        ]
    } else {
        seq![c]
    }
}

/// A string's characters as they appear inside a JSON string literal.
pub open spec fn spec_json_escape(s: Seq<char>) -> Seq<char>
    decreases s.len(),
{
    if s.len() == 0 {
        Seq::empty()
    } else {
        spec_json_escape_char(s.first()) + spec_json_escape(s.drop_first())
    }
}

/// A JSON string literal: the escaped characters between quotes.
pub open spec fn spec_json_string(s: Seq<char>) -> Seq<char> {
    seq!['"'] + spec_json_escape(s) + seq!['"']
}

proof fn lemma_json_escape_push(s: Seq<char>, i: int)
    requires
        0 <= i < s.len(),
    ensures
        spec_json_escape(s.take(i + 1)) == spec_json_escape(s.take(i)) + spec_json_escape_char(
            s[i],
        ),
    decreases i,
{
    if i == 0 {
        assert(s.take(1) =~= seq![s[0]]);
        assert(s.take(1).first() == s[0]);
        assert(s.take(1).drop_first() =~= Seq::<char>::empty());
        assert(s.take(0) =~= Seq::<char>::empty());
        assert(spec_json_escape(Seq::<char>::empty()) == Seq::<char>::empty());
        assert(spec_json_escape(s.take(1)) =~= Seq::<char>::empty() + spec_json_escape_char(s[0]));
    } else {
        lemma_json_escape_push(s.drop_first(), i - 1);
        assert(s.take(i + 1).drop_first() =~= s.drop_first().take(i));
        assert(s.take(i).drop_first() =~= s.drop_first().take(i - 1));
        assert(s.drop_first()[i - 1] == s[i]);
        assert(s.take(i + 1).first() == s[0]);
        assert(s.take(i).first() == s[0]);
        assert(spec_json_escape(s.take(i + 1)) =~= spec_json_escape(s.take(i))
            + spec_json_escape_char(s[i]));
    }
}

fn hex_char(d: u32) -> (c: char)
    requires
        d < 16,
    ensures
        c == spec_hex_char(d as nat),
{
    if d == 0 {
        '0'
    } else if d == 1 {
        '1'
    } else if d == 2 {
        '2'
    } else if d == 3 {
        '3'
    } else if d == 4 {
        '4'
    } else if d == 5 {
        '5'
    } else if d == 6 {
        '6'
    } else if d == 7 {
        '7'
    } else if d == 8 {
        '8'
    } else if d == 9 {
        '9'
    } else if d == 10 {
        'a'
    } else if d == 11 {
        'b'
    } else if d == 12 {
        'c'
    } else if d == 13 {
        'd'
    } else if d == 14 {
        'e'
    } else {
        'f'
    }
}

fn push_escaped(out: &mut String, c: char)
    ensures
        final(out)@ == old(out)@ + spec_json_escape_char(c),
{
    if c == '"' {
        out.push('\\');
        out.push('"');
    } else if c == '\\' {
        out.push('\\');
        out.push('\\');
    } else if c == '\u{8}' {
        out.push('\\');
        out.push('b');
    } else if c == '\u{c}' {
        out.push('\\');
        out.push('f');
    } else if c == '\n' {
        out.push('\\');
        out.push('n');
    } else if c == '\r' {
        out.push('\\');
        out.push('r');
    } else if c == '\t' {
        out.push('\\');
        out.push('t');
    } else if (c as u32) < 32 {
        out.push('\\');
        out.push('u');
        out.push('0');
        out.push('0');
        out.push(hex_char((c as u32) / 16));
        out.push(hex_char((c as u32) % 16));
        proof {
            assert(final(out)@ =~= old(out)@ + spec_json_escape_char(c));
        }
    } else {
        out.push(c);
    }
    proof {
        assert(final(out)@ =~= old(out)@ + spec_json_escape_char(c));
    }
}

/// Appends a JSON string literal holding `s` to `out`.
pub fn push_json_string(out: &mut String, s: &str)
    ensures
        final(out)@ == old(out)@ + spec_json_string(s@),
{
    out.push('"');
    let n = s.unicode_len();
    let mut i: usize = 0;
    while i < n
        invariant
            i <= n,
            n == s@.len(),
            out@ == old(out)@ + seq!['"'] + spec_json_escape(s@.take(i as int)),
        decreases n - i,
    {
        let c = s.get_char(i);
        push_escaped(out, c);
        proof {
            lemma_json_escape_push(s@, i as int);
        }
        i = i + 1;
    }
    out.push('"');
    proof {
        assert(s@.take(n as int) =~= s@);
        assert(final(out)@ =~= old(out)@ + spec_json_string(s@));
    }
}

/// Renders a JSON string literal holding `s`.
pub fn json_string(s: &str) -> (r: String)
    ensures
        r@ == spec_json_string(s@),
{
    let mut out = String::new();
    push_json_string(&mut out, s);
    proof {
        assert(out@ =~= spec_json_string(s@));
    }
    out
}

/// The command envelope published on the brokers: the tag verbatim (tags
/// are plain identifiers) and the data as an escaped string.
pub open spec fn spec_command_envelope(tag: Seq<char>, data: Seq<char>) -> Seq<char> {
    "{\"command\":\""@ + tag + "\",\"data\":"@ + spec_json_string(data) + "}"@
}

/// Renders the command envelope.
pub fn command_envelope(tag: &str, data: &str) -> (r: String)
    ensures
        r@ == spec_command_envelope(tag@, data@),
{
    let mut out = String::from_str("{\"command\":\"").concat(tag).concat("\",\"data\":");
    push_json_string(&mut out, data);
    let r = out.concat("}");
    proof {
        assert(r@ =~= spec_command_envelope(tag@, data@));
    }
    r
}

/// The answer to a log request: the request identifier and the log text.
pub open spec fn spec_log_response(request: Seq<char>, data: Seq<char>) -> Seq<char> {
    "{\"request\":"@ + spec_json_string(request) + ",\"data\":"@ + spec_json_string(data) + "}"@
}

/// Renders the answer to a log request.
pub fn log_response(request: &str, data: &str) -> (r: String)
    ensures
        r@ == spec_log_response(request@, data@),
{
    let mut out = String::from_str("{\"request\":");
    push_json_string(&mut out, request);
    let mut out2 = out.concat(",\"data\":");
    push_json_string(&mut out2, data);
    let r = out2.concat("}");
    proof {
        assert(r@ =~= spec_log_response(request@, data@));
    }
    r
}

} // verus!

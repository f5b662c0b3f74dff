use vstd::prelude::*;
use crate::outcome::ExecutionResult;
use crate::text::append_chars;
use crate::text::chars_of;
use crate::text::string_of;

verus! {

/// The lower-case hexadecimal digit for a value below sixteen.
pub open spec fn hex_digit(n: int) -> char {
    if n == 0 {
        '0'
    } else if n == 1 {
        '1'
    } else if n == 2 {
        '2'
    } else if n == 3 {
        '3'
    } else if n == 4 {
        '4'
    } else if n == 5 {
        '5'
    } else if n == 6 {
        '6'
    } else if n == 7 {
        '7'
    } else if n == 8 {
        '8'
    } else if n == 9 {
        '9'
    } else if n == 10 {
        'a'
    } else if n == 11 {
        'b'
    } else if n == 12 {
        'c'
    } else if n == 13 {
        'd'
    } else if n == 14 {
        'e'
    } else {
        'f'
    }
}

/// How one character appears inside the emitted JSON string literal:
/// quote and backslash are escaped, the five short control escapes are
/// used where they exist, other control characters take the `\u00xx`
/// form, and everything else stands as itself.
pub open spec fn escape_char(c: char) -> Seq<char> {
    if c == '"' {
        seq!['\\', '"']
    } else if c == '\\' {
        seq!['\\', '\\']
    } else if c == '\u{8}' {
        seq!['\\', 'b']
    } else if c == '\t' {
        seq!['\\', 't']
    } else if c == '\n' {
        seq!['\\', 'n']
    } else if c == '\u{c}' {
        seq!['\\', 'f']
    } else if c == '\r' {
        seq!['\\', 'r']
    } else if (c as u32) < 32 {
        seq!['\\', 'u', '0', '0', hex_digit(c as int / 16), hex_digit(c as int % 16)]
    } else {
        seq![c]
    }
}

/// The escaped body of the JSON string literal for `s`.
pub open spec fn escaped_body(s: Seq<char>) -> Seq<char>
    decreases s.len(),
{
    if s.len() == 0 {
        Seq::empty()
    } else {
        escape_char(s[0]) + escaped_body(s.skip(1))
    }
}

proof fn lemma_escaped_snoc(a: Seq<char>, c: char)
    ensures
        escaped_body(a.push(c)) == escaped_body(a) + escape_char(c),
    decreases a.len(),
{
    reveal_with_fuel(escaped_body, 3);
    if a.len() == 0 {
        assert(a.push(c)[0] == c);
        assert(a.push(c).skip(1) =~= Seq::<char>::empty());
        assert(escaped_body(a) + escape_char(c) =~= escape_char(c));
        assert(escape_char(c) + Seq::<char>::empty() =~= escape_char(c));
    } else {
        assert(a.push(c)[0] == a[0]);
        assert(a.push(c).skip(1) =~= a.skip(1).push(c));
        lemma_escaped_snoc(a.skip(1), c);
        assert(escape_char(a[0]) + (escaped_body(a.skip(1)) + escape_char(c)) =~= (escape_char(
            a[0],
        ) + escaped_body(a.skip(1))) + escape_char(c));
    }
}

/// The JSON string literal that re-encodes a payload, quotes included.
pub open spec fn json_string_lit(s: Seq<char>) -> Seq<char> {
    seq!['"'] + escaped_body(s) + seq!['"']
}

/// The single script statement that delivers a result into the embedded
/// page: the fixed global hook, the callback token between single quotes,
/// the bare boolean, and the payload as a JSON string literal.
pub open spec fn script_text(callback_id: Seq<char>, success: bool, payload: Seq<char>) -> Seq<
    char,
> {
    "window.__resolvePromise('"@ + callback_id + "', "@ + (if success {
        "true"@
    } else {
        "false"@
    }) + ", "@ + json_string_lit(payload) + ")"@
}

/// The lower-case hexadecimal digit character for `n`.
fn hex_char(n: u32) -> (r: char)
    requires
        n < 16,
    ensures
        r == hex_digit(n as int),
{
    if n == 0 {
        '0'
    } else if n == 1 {
        '1'
    } else if n == 2 {
        '2'
    } else if n == 3 {
        '3'
    } else if n == 4 {
        '4'
    } else if n == 5 {
        '5'
    } else if n == 6 {
        '6'
    } else if n == 7 {
        '7'
    } else if n == 8 {
        '8'
    } else if n == 9 {
        '9'
    } else if n == 10 {
        'a'
    } else if n == 11 {
        'b'
    } else if n == 12 {
        'c'
    } else if n == 13 {
        'd'
    } else if n == 14 {
        'e'
    } else {
        'f'
    }
}

/// Appends the escaped form of one payload character.
fn push_escape(out: &mut Vec<char>, c: char)
    ensures
        final(out)@ == old(out)@ + escape_char(c),
{
    let ghost pre = out@;
    if c == '"' {
        out.push('\\');
        out.push('"');
        proof {
            assert(out@ =~= pre + escape_char(c));
        }
    } else if c == '\\' {
        out.push('\\');
        out.push('\\');
        proof {
            assert(out@ =~= pre + escape_char(c));
        }
    } else if c == '\u{8}' {
        out.push('\\');
        out.push('b');
        proof {
            assert(out@ =~= pre + escape_char(c));
        }
    } else if c == '\t' {
        out.push('\\');
        out.push('t');
        proof {
            assert(out@ =~= pre + escape_char(c));
        }
    } else if c == '\n' {
        out.push('\\');
        out.push('n');
        proof {
            assert(out@ =~= pre + escape_char(c));
        }
    } else if c == '\u{c}' {
        out.push('\\');
        out.push('f');
        proof {
            assert(out@ =~= pre + escape_char(c));
        }
    } else if c == '\r' {
        out.push('\\');
        out.push('r');
        proof {
            assert(out@ =~= pre + escape_char(c));
        }
    } else {
        let code = c as u32;
        if code < 32 {
            out.push('\\');
            out.push('u');
            out.push('0');
            out.push('0');
            out.push(hex_char(code / 16));
            out.push(hex_char(code % 16));
            proof {
                assert((code / 16) as int == c as int / 16);
                assert((code % 16) as int == c as int % 16);
                assert(out@ =~= pre + escape_char(c));
            }
        } else {
            out.push(c);
            proof {
                assert(out@ =~= pre + escape_char(c));
            }
        }
    }
}

/// Builds the JSON string literal for a payload, character by character.
fn json_quote(s: &Vec<char>) -> (r: Vec<char>)
    ensures
        r@ == json_string_lit(s@),
{
    let mut out: Vec<char> = Vec::new();
    out.push('"');
    let mut i: usize = 0;
    proof {
        assert(s@.take(0) =~= Seq::<char>::empty());
        assert(out@ =~= seq!['"'] + escaped_body(s@.take(0)));
    }
    while i < s.len()
        invariant
            i <= s@.len(),
            out@ == seq!['"'] + escaped_body(s@.take(i as int)),
        decreases s@.len() - i,
    {
        let c = s[i];
        push_escape(&mut out, c);
        proof {
            lemma_escaped_snoc(s@.take(i as int), c);
            assert(s@.take(i as int).push(c) =~= s@.take(i + 1));
            assert(out@ =~= seq!['"'] + escaped_body(s@.take(i + 1)));
        }
        i = i + 1;
    }
    out.push('"');
    proof {
        assert(s@.take(s@.len() as int) =~= s@);
        assert(out@ =~= json_string_lit(s@));
    }
    out
}

/// Renders the script statement that delivers `res` to the embedded page's
/// global promise-resolution hook.
pub fn render_script(res: &ExecutionResult) -> (r: String)
    ensures
        r@ == script_text(res.callback_id@, res.success, res.payload@),
{
    let mut out = chars_of("window.__resolvePromise('");
    let cb = chars_of(res.callback_id.as_str());
    append_chars(&mut out, &cb);
    let mid = chars_of("', ");
    append_chars(&mut out, &mid);
    let flag = if res.success {
        chars_of("true")
    } else {
        chars_of("false")
    };
    append_chars(&mut out, &flag);
    let comma = chars_of(", ");
    append_chars(&mut out, &comma);
    let payload_chars = chars_of(res.payload.as_str());
    let lit = json_quote(&payload_chars);
    append_chars(&mut out, &lit);
    out.push(')');
    proof {
        assert(")"@ =~= seq![')']) by {
            reveal_strlit(")");
        }
        assert(out@ =~= script_text(res.callback_id@, res.success, res.payload@));
    }
    string_of(&out)
}

} // verus!

//! JSON string encoding: the escaping used when a record is rendered as
//! JSON for hashing and for the canonical signing string.
//!
//! Double quotes and backslashes are escaped, the common control
//! characters get their two-character escapes, the remaining control
//! characters below `0x20` get a `\u00XX` escape, and every other
//! character is emitted as itself.

use vstd::prelude::*;
use vstd::string::StrSliceExecFns;
use vstd::string::StringExecFns;
use crate::text::hex_lower_digit;

verus! {

/// The rendering of one character inside a JSON string literal.
pub open spec fn escape_char(c: char) -> Seq<char> {
    let v = c as u32;
    if c == '"' {
        "\\\""@
    } else if c == '\\' {
        "\\\\"@
    } else if v == 8 {
        "\\b"@
    } else if v == 9 {
        "\\t"@
    } else if v == 10 {
        "\\n"@
    } else if v == 12 {
        "\\f"@
    } else if v == 13 {
        "\\r"@
    } else if v < 32 {
        "\\u00"@ + seq![hex_lower_digit((v / 16) as nat), hex_lower_digit((v % 16) as nat)]
    } else {
        seq![c]
    }
}

/// The escaped body of a JSON string literal.
pub open spec fn json_escape(s: Seq<char>) -> Seq<char>
    decreases s.len(),
{
    if s.len() == 0 {
        Seq::empty()
    } else {
        escape_char(s[0]) + json_escape(s.skip(1))
    }
}

/// A JSON string literal: quote, escaped body, quote.
pub open spec fn json_string(s: Seq<char>) -> Seq<char> {
    "\""@ + json_escape(s) + "\""@
}

pub proof fn lemma_json_escape_push(t: Seq<char>, c: char)
    ensures
        json_escape(t.push(c)) == json_escape(t) + escape_char(c),
    decreases t.len(),
{
    if t.len() == 0 {
        assert(t.push(c)[0] == c);
        assert(t.push(c).skip(1) =~= Seq::<char>::empty());
        assert(json_escape(t.push(c).skip(1)) == Seq::<char>::empty());
        assert(json_escape(t.push(c)) == escape_char(c) + Seq::<char>::empty());
        assert(escape_char(c) + Seq::<char>::empty() =~= Seq::<char>::empty() + escape_char(c));
        assert(json_escape(t) == Seq::<char>::empty());
    } else {
        lemma_json_escape_push(t.skip(1), c);
        assert(t.push(c).skip(1) =~= t.skip(1).push(c));
        assert(t.push(c)[0] == t[0]);
        assert(json_escape(t.push(c)) =~= json_escape(t) + escape_char(c));
    }
}

/// Append the escape of the character at position `i` of `s` to `out`.
fn push_escaped(out: &mut String, s: &str, i: usize)
    requires
        i < s@.len(),
        s@.len() <= usize::MAX,
    ensures
        final(out)@ == old(out)@ + escape_char(s@[i as int]),
{
    let c = s.get_char(i);
    let v = c as u32;
    if c == '"' {
        out.append("\\\"");
    } else if c == '\\' {
        out.append("\\\\");
    } else if v == 8 {
        out.append("\\b");
    } else if v == 9 {
        out.append("\\t");
    } else if v == 10 {
        out.append("\\n");
    } else if v == 12 {
        out.append("\\f");
    } else if v == 13 {
        out.append("\\r");
    } else if v < 32 {
        out.append("\\u00");
        out.append(crate::text::hex_digit_str((v / 16) as u8));
        out.append(crate::text::hex_digit_str((v % 16) as u8));
        proof {
            assert(old(out)@ + "\\u00"@ + seq![hex_lower_digit((v / 16) as nat)] + seq![
                hex_lower_digit((v % 16) as nat),
            ] =~= old(out)@ + escape_char(c));
        }
    } else {
        let one = s.substring_char(i, i + 1);
        out.append(one);
        proof {
            assert(s@.subrange(i as int, i as int + 1) =~= seq![c]);
        }
    }
}

/// Append the escaped body of `s` to `out`.
fn append_escaped(out: &mut String, s: &str)
    ensures
        final(out)@ == old(out)@ + json_escape(s@),
{
    let n = s.unicode_len();
    let mut i: usize = 0;
    while i < n
        invariant
            n == s@.len(),
            i <= n,
            out@ == old(out)@ + json_escape(s@.take(i as int)),
        decreases n - i,
    {
        push_escaped(out, s, i);
        proof {
            assert(s@.take(i as int).push(s@[i as int]) =~= s@.take(i as int + 1));
            lemma_json_escape_push(s@.take(i as int), s@[i as int]);
        }
        i = i + 1;
    }
    proof {
        assert(s@.take(n as int) =~= s@);
    }
}

/// Append the JSON string literal for `s` to `out`.
pub fn append_json_string(out: &mut String, s: &str)
    ensures
        final(out)@ == old(out)@ + json_string(s@),
{
    out.append("\"");
    append_escaped(out, s);
    out.append("\"");
    proof {
        assert(old(out)@ + "\""@ + json_escape(s@) + "\""@ =~= old(out)@ + json_string(s@));
    }
}

/// The JSON string literal for `s`, as a fresh string.
pub fn json_quote(s: &str) -> (r: String)
    ensures
        r@ == json_string(s@),
{
    let mut out = String::new();
    append_json_string(&mut out, s);
    proof {
        assert(Seq::<char>::empty() + json_string(s@) =~= json_string(s@));
    }
    out
}

} // verus!

//! JSON text fragments used by the request encoder: escaped strings and
//! decimal integers.
use vstd::prelude::*;
use vstd::string::StrSliceExecFns;
use vstd::string::StringExecFns;

verus! {

/// The lowercase hexadecimal digits, in order.
pub open spec fn hex_digits() -> Seq<char> {
    seq!['0', '1', '2', '3', '4', '5', '6', '7', '8', '9', 'a', 'b', 'c', 'd', 'e', 'f']
}

/// How one character of a string is written inside a JSON string literal.
pub open spec fn escape_char(c: char) -> Seq<char> {
    if c == '"' {
        seq!['\\', '"']
    } else if c == '\\' {
        seq!['\\', '\\']
    } else if c == '\u{8}' {
        seq!['\\', 'b']
    } else if c == '\u{c}' {
        seq!['\\', 'f']
    } else if c == '\n' {
        seq!['\\', 'n']
    } else if c == '\r' {
        seq!['\\', 'r']
    } else if c == '\t' {
        seq!['\\', 't']
    } else if (c as u32) < 0x20 {
        seq!['\\', 'u', '0', '0', hex_digits()[(c as u32) as int / 16], hex_digits()[(c as u32) as int % 16]]
    } else {
        seq![c]
    }
}

/// The escaped body of a JSON string literal for `s`.
pub open spec fn escape_chars(s: Seq<char>) -> Seq<char>
    decreases s.len(),
{
    if s.len() == 0 {
        seq![]
    } else {
        escape_chars(s.drop_last()) + escape_char(s.last())
    }
}

/// `s` as a JSON string literal, quotes included.
pub open spec fn json_string(s: Seq<char>) -> Seq<char> {
    seq!['"'] + escape_chars(s) + seq!['"']
}

/// The decimal digits of `n`, without leading zeros.
pub open spec fn decimal(n: nat) -> Seq<char>
    decreases n,
{
    if n < 10 {
        seq![hex_digits()[n as int]]
    } else {
        decimal(n / 10) + seq![hex_digits()[(n % 10) as int]]
    }
}

/// Appends the `d`-th lowercase hexadecimal digit.
fn append_digit(out: &mut String, d: u32)
    requires
        d < 16,
    ensures
        final(out)@ == old(out)@ + seq![hex_digits()[d as int]],
{
    let digits = "0123456789abcdef";
    proof {
        reveal_strlit("0123456789abcdef");
    }
    let one = digits.substring_char(d as usize, d as usize + 1);
    out.append(one);
    assert(one@ =~= seq![hex_digits()[d as int]]);
}

/// Appends the decimal digits of `n`.
pub fn append_decimal(out: &mut String, n: u64)
    ensures
        final(out)@ == old(out)@ + decimal(n as nat),
    decreases n,
{
    if n >= 10 {
        append_decimal(out, n / 10);
    }
    append_digit(out, (n % 10) as u32);
    assert(final(out)@ =~= old(out)@ + decimal(n as nat));
}

/// Appends `s` written as the body of a JSON string literal.
pub fn append_escaped(out: &mut String, s: &str)
    ensures
        final(out)@ == old(out)@ + escape_chars(s@),
{
    let n = s.unicode_len();
    let mut i: usize = 0;
    while i < n
        invariant
            n == s@.len(),
            i <= n,
            out@ == old(out)@ + escape_chars(s@.subrange(0, i as int)),
        decreases n - i,
    {
        let c = s.get_char(i);
        let ghost before = out@;
        if c == '"' {
            out.append("\\\"");
            proof { reveal_strlit("\\\""); }
        } else if c == '\\' {
            out.append("\\\\");
            proof { reveal_strlit("\\\\"); }
        } else if c == '\u{8}' {
            out.append("\\b");
            proof { reveal_strlit("\\b"); }
        } else if c == '\u{c}' {
            out.append("\\f");
            proof { reveal_strlit("\\f"); }
        } else if c == '\n' {
            out.append("\\n");
            proof { reveal_strlit("\\n"); }
        } else if c == '\r' {
            out.append("\\r");
            proof { reveal_strlit("\\r"); }
        } else if c == '\t' {
            out.append("\\t");
            proof { reveal_strlit("\\t"); }
        } else if (c as u32) < 0x20 {
            out.append("\\u00");
            proof { reveal_strlit("\\u00"); }
            append_digit(out, (c as u32) / 16);
            append_digit(out, (c as u32) % 16);
        } else {
            out.append(s.substring_char(i, i + 1));
        }
        assert(out@ =~= before + escape_char(c));
        assert(s@.subrange(0, i + 1).drop_last() =~= s@.subrange(0, i as int));
        i = i + 1;
    }
    assert(s@.subrange(0, n as int) =~= s@);
}

/// Appends `s` as a JSON string literal, quotes included.
pub fn append_json_string(out: &mut String, s: &str)
    ensures
        final(out)@ == old(out)@ + json_string(s@),
{
    out.append("\"");
    proof { reveal_strlit("\""); }
    append_escaped(out, s);
    out.append("\"");
    assert(final(out)@ =~= old(out)@ + json_string(s@));
}

pub open spec fn is_digit(c: char) -> bool {
    '0' <= c && c <= '9'
}

pub open spec fn is_hex_digit(c: char) -> bool {
    is_digit(c) || ('a' <= c && c <= 'f') || ('A' <= c && c <= 'F')
}

/// JSON white space.
pub open spec fn is_space(c: char) -> bool {
    c == ' ' || c == '\t' || c == '\n' || c == '\r'
}

/// The first position at or after `i` that does not hold a digit.
pub open spec fn digits_end(s: Seq<char>, i: int) -> int
    decreases s.len() - i,
{
    if 0 <= i < s.len() && is_digit(s[i]) {
        digits_end(s, i + 1)
    } else {
        i
    }
}

/// The first position at or after `i` that does not hold white space.
pub open spec fn spaces_end(s: Seq<char>, i: int) -> int
    decreases s.len() - i,
{
    if 0 <= i < s.len() && is_space(s[i]) {
        spaces_end(s, i + 1)
    } else {
        i
    }
}

/// `s` holds `lit` at position `i`.
pub open spec fn holds_at(s: Seq<char>, i: int, lit: Seq<char>) -> bool {
    0 <= i && i + lit.len() <= s.len() && s.subrange(i, i + lit.len()) == lit
}

/// The end of a JSON number that starts at `i`.
pub open spec fn number_end(s: Seq<char>, i: int) -> Option<int> {
    let a = if holds_at(s, i, seq!['-']) { i + 1 } else { i };
    let b = if holds_at(s, a, seq!['0']) {
        a + 1
    } else if 0 <= a < s.len() && '1' <= s[a] && s[a] <= '9' {
        digits_end(s, a + 1)
    } else {
        -1
    };
    let c = if b < 0 {
        -1
    } else if holds_at(s, b, seq!['.']) {
        if digits_end(s, b + 1) == b + 1 { -1 } else { digits_end(s, b + 1) }
    } else {
        b
    };
    if c < 0 {
        None
    } else if holds_at(s, c, seq!['e']) || holds_at(s, c, seq!['E']) {
        let d = if holds_at(s, c + 1, seq!['+']) || holds_at(s, c + 1, seq!['-']) {
            c + 2
        } else {
            c + 1
        };
        if digits_end(s, d) == d { None } else { Some(digits_end(s, d)) }
    } else {
        Some(c)
    }
}

/// The end of a JSON string whose opening quote stands just before `i`.
pub open spec fn string_end(s: Seq<char>, i: int) -> Option<int>
    decreases s.len() - i,
{
    if i < 0 || i >= s.len() {
        None
    } else if s[i] == '"' {
        Some(i + 1)
    } else if s[i] == '\\' {
        if i + 1 < s.len() && (s[i + 1] == '"' || s[i + 1] == '\\' || s[i + 1] == '/' || s[i + 1]
            == 'b' || s[i + 1] == 'f' || s[i + 1] == 'n' || s[i + 1] == 'r' || s[i + 1] == 't') {
            string_end(s, i + 2)
        } else if i + 5 < s.len() && s[i + 1] == 'u' && is_hex_digit(s[i + 2]) && is_hex_digit(
            s[i + 3],
        ) && is_hex_digit(s[i + 4]) && is_hex_digit(s[i + 5]) {
            string_end(s, i + 6)
        } else {
            None
        }
    } else if (s[i] as u32) < 0x20 {
        None
    } else {
        string_end(s, i + 1)
    }
}

/// The end of one JSON value starting at `i`, white space around it
/// included; `depth` bounds how deeply the reading may nest.
pub open spec fn value_end(s: Seq<char>, i: int, depth: nat) -> Option<int>
    decreases depth, 0int,
{
    if depth == 0 {
        None
    } else {
        let j = spaces_end(s, i);
        let e = if j < 0 || j >= s.len() {
            None
        } else if s[j] == '"' {
            string_end(s, j + 1)
        } else if s[j] == '[' || s[j] == '{' {
            let k = spaces_end(s, j + 1);
            let close = if s[j] == '[' { ']' } else { '}' };
            if holds_at(s, k, seq![close]) {
                Some(k + 1)
            } else {
                items_end(s, j + 1, close, s[j] == '{', (depth - 1) as nat)
            }
        } else if holds_at(s, j, "true"@) {
            Some(j + 4)
        } else if holds_at(s, j, "false"@) {
            Some(j + 5)
        } else if holds_at(s, j, "null"@) {
            Some(j + 4)
        } else {
            number_end(s, j)
        };
        match e {
            Some(k) => Some(spaces_end(s, k)),
            None => None,
        }
    }
}

/// The end of the elements of an array (`keyed` false) or the members of an
/// object (`keyed` true) starting at `i`, closing character included.
pub open spec fn items_end(s: Seq<char>, i: int, close: char, keyed: bool, depth: nat) -> Option<
    int,
>
    decreases depth, 1int,
{
    if depth == 0 {
        None
    } else {
        let start = if keyed {
            let j = spaces_end(s, i);
            if holds_at(s, j, seq!['"']) {
                match string_end(s, j + 1) {
                    Some(k) => {
                        let m = spaces_end(s, k);
                        if holds_at(s, m, seq![':']) { m + 1 } else { -1 }
                    },
                    None => -1,
                }
            } else {
                -1
            }
        } else {
            i
        };
        if start < 0 {
            None
        } else {
            match value_end(s, start, (depth - 1) as nat) {
                Some(k) => if holds_at(s, k, seq![',']) {
                    items_end(s, k + 1, close, keyed, (depth - 1) as nat)
                } else if holds_at(s, k, seq![close]) {
                    Some(k + 1)
                } else {
                    None
                },
                None => None,
            }
        }
    }
}

/// `s` is the text of exactly one JSON value.
pub open spec fn is_json_value(s: Seq<char>) -> bool {
    exists|depth: nat| #[trigger] value_end(s, 0, depth) == Some(s.len() as int)
}

} // verus!

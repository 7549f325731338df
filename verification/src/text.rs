//! Text pieces the printer writes: decimal numbers, indentation, spans, and
//! whitespace trimming.
use vstd::prelude::*;
use vstd::string::*;
use crate::token::Span;

verus! {

pub open spec fn digit_char(d: nat) -> char {
    if d == 0 {
        '0'
    } else if d == 1 {
        '1'
    } else if d == 2 {
        '2'
    } else if d == 3 {
        '3'
    } else if d == 4 {
        '4'
    } else if d == 5 {
        '5'
    } else if d == 6 {
        '6'
    } else if d == 7 {
        '7'
    } else if d == 8 {
        '8'
    } else if d == 9 {
        '9'
    } else {
        '?'
    }
}

/// The decimal digits of `n`, as `{}` and `{:?}` write an unsigned integer.
pub open spec fn decimal(n: nat) -> Seq<char>
    decreases n,
{
    if n < 10 {
        seq![digit_char(n)]
    } else {
        decimal(n / 10) + seq![digit_char(n % 10)]
    }
}

/// A span as `{:?}` writes a range: `start..end`.
pub open spec fn span_text(s: Span) -> Seq<char> {
    decimal(s.start as nat) + ".."@ + decimal(s.end as nat)
}

/// Two spaces per level.
pub open spec fn indent_text(n: nat) -> Seq<char>
    decreases n,
{
    if n == 0 {
        seq![]
    } else {
        indent_text((n - 1) as nat) + "  "@
    }
}

/// The characters with the Unicode property `White_Space`.
pub open spec fn is_white_space(c: char) -> bool {
    let v = c as u32;
    ||| 0x9 <= v <= 0xD
    ||| v == 0x20
    ||| v == 0x85
    ||| v == 0xA0
    ||| v == 0x1680
    ||| 0x2000 <= v <= 0x200A
    ||| v == 0x2028
    ||| v == 0x2029
    ||| v == 0x202F
    ||| v == 0x205F
    ||| v == 0x3000
}

pub open spec fn trim_start_text(s: Seq<char>) -> Seq<char>
    decreases s.len(),
{
    if s.len() > 0 && is_white_space(s[0]) {
        trim_start_text(s.drop_first())
    } else {
        s
    }
}

pub open spec fn trim_end_text(s: Seq<char>) -> Seq<char>
    decreases s.len(),
{
    if s.len() > 0 && is_white_space(s.last()) {
        trim_end_text(s.drop_last())
    } else {
        s
    }
}

/// `s` without its leading and trailing white space.
pub open spec fn trim_text(s: Seq<char>) -> Seq<char> {
    trim_end_text(trim_start_text(s))
}

/// `str::trim`: the documentation says it removes the leading and trailing
/// characters that have the Unicode property `White_Space`; this contract
/// claims exactly that of it.
#[verifier::external_body]
pub(crate) fn trim(s: &str) -> (r: &str)
    ensures
        r@ == trim_text(s@),
{
    s.trim()
}

fn digit_str(d: usize) -> (s: &'static str)
    requires
        d < 10,
    ensures
        s@ == seq![digit_char(d as nat)],
{
    match d {
            0 => {
                proof { reveal_strlit("0"); }
                "0"
            },
            1 => {
                proof { reveal_strlit("1"); }
                "1"
            },
            2 => {
                proof { reveal_strlit("2"); }
                "2"
            },
            3 => {
                proof { reveal_strlit("3"); }
                "3"
            },
            4 => {
                proof { reveal_strlit("4"); }
                "4"
            },
            5 => {
                proof { reveal_strlit("5"); }
                "5"
            },
            6 => {
                proof { reveal_strlit("6"); }
                "6"
            },
            7 => {
                proof { reveal_strlit("7"); }
                "7"
            },
            8 => {
                proof { reveal_strlit("8"); }
                "8"
            },
            9 => {
                proof { reveal_strlit("9"); }
                "9"
            },
            _ => {
                proof { reveal_strlit("9"); }
                "9"
            },
    }
}

/// Appends the decimal digits of `n` to `out`.
pub fn push_decimal(out: &mut String, n: usize)
    ensures
        final(out)@ == old(out)@ + decimal(n as nat),
    decreases n,
{
    if n >= 10 {
        push_decimal(out, n / 10);
    }
    out.append(digit_str(n % 10));
    assert(final(out)@ =~= old(out)@ + decimal(n as nat));
}

/// Appends `start..end` to `out`.
pub fn push_span(out: &mut String, span: Span)
    ensures
        final(out)@ == old(out)@ + span_text(span),
{
    push_decimal(out, span.start);
    out.append("..");
    push_decimal(out, span.end);
    assert(final(out)@ =~= old(out)@ + span_text(span));
}

/// Appends `indent` levels of indentation to `out`.
pub fn push_indent(out: &mut String, indent: usize)
    ensures
        final(out)@ == old(out)@ + indent_text(indent as nat),
{
    let mut i: usize = 0;
    while i < indent
        invariant
            i <= indent,
            out@ == old(out)@ + indent_text(i as nat),
        decreases indent - i,
    {
        out.append("  ");
        i = i + 1;
        assert(out@ =~= old(out)@ + indent_text(i as nat));
    }
}

} // verus!

use crate::compression::Compression;
use crate::table::Record;
use vstd::prelude::*;
use vstd::string::StringExecFns;

verus! {

/// The character of a decimal digit.
pub open spec fn digit(d: int) -> char {
    ((48 + d) as u8) as char
}

/// A byte in decimal, without leading zeros.
pub open spec fn decimal(b: u8) -> Seq<char> {
    if b >= 100 {
        seq![digit(b as int / 100), digit(b as int / 10 % 10), digit(b as int % 10)]
    } else if b >= 10 {
        seq![digit(b as int / 10), digit(b as int % 10)]
    } else {
        seq![digit(b as int)]
    }
}

/// The elements of a byte array literal: each byte in decimal, followed by a
/// comma.
pub open spec fn byte_list(payload: Seq<u8>) -> Seq<char>
    decreases payload.len(),
{
    if payload.len() == 0 {
        Seq::empty()
    } else {
        byte_list(payload.drop_last()) + decimal(payload.last()) + seq![',']
    }
}

/// The expression of bytes as a static slice.
pub open spec fn slice_code(payload: Seq<u8>) -> Seq<char> {
    "&["@ + byte_list(payload) + "] as &'static [u8]"@
}

/// The expression that a table declaration holds for one entry: a pair of the
/// kind and the stored bytes.
pub open spec fn entry_code(kind: Compression, payload: Seq<u8>) -> Seq<char> {
    "(Compression::"@ + kind.name() + ", "@ + slice_code(payload) + ")"@
}

/// The keys of a table declaration with the expression of each, in order.
pub open spec fn code_entries(s: Seq<Record>) -> Seq<(Seq<char>, Seq<char>)> {
    s.map_values(|r: Record| (r.key, entry_code(r.kind, r.payload)))
}

/// Appends one decimal digit.
fn push_digit(text: &mut String, d: u8)
    requires
        d < 10,
    ensures
        final(text)@ == old(text)@.push(digit(d as int)),
{
    text.push((48u8 + d) as char);
}

/// Appends a byte in decimal.
fn push_decimal(text: &mut String, b: u8)
    ensures
        final(text)@ == old(text)@ + decimal(b),
{
    if b >= 100 {
        push_digit(text, b / 100);
        push_digit(text, b / 10 % 10);
        push_digit(text, b % 10);
    } else if b >= 10 {
        push_digit(text, b / 10);
        push_digit(text, b % 10);
    } else {
        push_digit(text, b);
    }
    proof {
        assert(text@ =~= old(text)@ + decimal(b));
    }
}

/// Appends the expression of bytes as a static slice.
fn push_slice(text: &mut String, payload: &[u8])
    ensures
        final(text)@ == old(text)@ + slice_code(payload@),
{
    text.append("&[");
    let ghost head = text@;
    let mut i: usize = 0;
    while i < payload.len()
        invariant
            i <= payload.len(),
            text@ == head + byte_list(payload@.take(i as int)),
        decreases payload.len() - i,
    {
        proof {
            assert(payload@.take(i + 1).drop_last() == payload@.take(i as int));
        }
        push_decimal(text, payload[i]);
        text.push(',');
        i = i + 1;
        proof {
            assert(text@ =~= head + byte_list(payload@.take(i as int)));
        }
    }
    proof {
        assert(payload@.take(payload@.len() as int) == payload@);
    }
    text.append("] as &'static [u8]");
    proof {
        assert(text@ =~= old(text)@ + slice_code(payload@));
    }
}

/// Renders the expression of bytes as a static slice.
pub fn render_slice(payload: &[u8]) -> (code: String)
    ensures
        code@ == slice_code(payload@),
{
    let mut code = String::new();
    push_slice(&mut code, payload);
    proof {
        assert(code@ =~= slice_code(payload@));
    }
    code
}

/// Renders the expression of one entry.
pub fn render_entry(kind: Compression, payload: &[u8]) -> (code: String)
    ensures
        code@ == entry_code(kind, payload@),
{
    let mut code = "(Compression::".to_owned();
    match kind {
        Compression::Passthrough => code.append("Passthrough"),
        _ => code.append(kind.to_string().as_str()),
    }
    code.append(", ");
    push_slice(&mut code, payload);
    code.append(")");
    proof {
        assert(code@ =~= entry_code(kind, payload@));
    }
    code
}

} // verus!

//! Numbers and bytes as text.
use pretty_hex::PrettyHex;
use vstd::prelude::*;
use vstd::string::StringExecFns;

verus! {

/// The character for the decimal digit `d`.
pub open spec fn digit_char(d: nat) -> char
    recommends
        d < 10,
{
    ('0' as nat + d) as char
}

/// `n` in decimal, without sign or leading zeros; zero is `"0"`.
pub open spec fn decimal_text(n: nat) -> Seq<char>
    decreases n,
{
    if n < 10 {
        seq![digit_char(n)]
    } else {
        decimal_text(n / 10).push(digit_char(n % 10))
    }
}

/// `n` in decimal, with a zero in front where it has one digit only.
pub open spec fn two_digit_text(n: nat) -> Seq<char> {
    if n < 10 {
        seq!['0', digit_char(n)]
    } else {
        decimal_text(n)
    }
}

/// The one-character string for the digit `d`.
fn digit_str(d: u8) -> (text: &'static str)
    requires
        d < 10,
    ensures
        text@ == seq![digit_char(d as nat)],
{
    proof {
        reveal_strlit("0");
        reveal_strlit("1");
        reveal_strlit("2");
        reveal_strlit("3");
        reveal_strlit("4");
        reveal_strlit("5");
        reveal_strlit("6");
        reveal_strlit("7");
        reveal_strlit("8");
        reveal_strlit("9");
    }
    let text = if d == 0 {
        "0"
    } else if d == 1 {
        "1"
    } else if d == 2 {
        "2"
    } else if d == 3 {
        "3"
    } else if d == 4 {
        "4"
    } else if d == 5 {
        "5"
    } else if d == 6 {
        "6"
    } else if d == 7 {
        "7"
    } else if d == 8 {
        "8"
    } else {
        "9"
    };
    text
}

/// Appends `n` in decimal to `out`.
pub fn push_decimal(out: &mut String, n: u64)
    ensures
        final(out)@ == old(out)@ + decimal_text(n as nat),
    decreases n,
{
    if n >= 10 {
        push_decimal(out, n / 10);
    }
    out.append(digit_str((n % 10) as u8));
}

/// Appends `n` in decimal to `out`, filled with a zero to two digits.
pub fn push_two_digits(out: &mut String, n: u64)
    ensures
        final(out)@ == old(out)@ + two_digit_text(n as nat),
{
    if n < 10 {
        out.append("0");
        proof {
            reveal_strlit("0");
        }
    }
    push_decimal(out, n);
}

/// The hex dump of `bytes` as `pretty_hex` writes it in its multi-line form:
/// a title line with the length, then rows of sixteen bytes with an address
/// in front and the printable characters behind.
pub uninterp spec fn hex_dump_text(bytes: Seq<u8>) -> Seq<char>;

/// `pretty_hex::PrettyHex::hex_dump`, formatted with `{:?}`: the multi-line
/// dump of the bytes. The text depends on the bytes alone; nothing more is
/// claimed of it.
#[verifier::external_body]
pub(crate) fn hex_dump(bytes: &[u8]) -> (text: String)
    ensures
        text@ == hex_dump_text(bytes@),
{
    format!("{:?}", bytes.hex_dump())
}

/// A dump with the time stamp of its frame in front: the stamp in decimal,
/// `": "`, the dump, and a newline.
pub open spec fn stamped_text(tstamp: u64, dump: Seq<char>) -> Seq<char> {
    decimal_text(tstamp as nat) + seq![':', ' '] + dump + seq!['\n']
}

/// Puts the time stamp of a frame in front of its dump.
pub fn stamped(tstamp: u64, dump: &str) -> (text: String)
    ensures
        text@ == stamped_text(tstamp, dump@),
{
    proof {
        reveal_strlit(": ");
        reveal_strlit("\n");
    }
    let mut text = String::new();
    push_decimal(&mut text, tstamp);
    text.append(": ");
    text.append(dump);
    text.append("\n");
    text
}

} // verus!

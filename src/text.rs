//! Reading bit patterns from binary text, and rendering values as text.

use vstd::prelude::*;
use vstd::string::StrSliceExecFns;
use crate::bit::Bit;
use crate::error::NumError;

verus! {

/// `cs` is binary text that fits in `n` bits: at most `n` characters, each `'0'` or `'1'`.
pub open spec fn is_binary_text(cs: Seq<char>, n: nat) -> bool {
    cs.len() <= n && forall|i: int| 0 <= i < cs.len() ==> (cs[i] == '0' || cs[i] == '1')
}

/// The `n` bits that binary text stands for, most significant character
/// first; positions beyond the text are `Zero`.
pub open spec fn parse_seq(cs: Seq<char>, n: nat) -> Seq<Bit> {
    Seq::new(
        n,
        |i: int|
            if i < cs.len() && cs[cs.len() - 1 - i] == '1' {
                Bit::One
            } else {
                Bit::Zero
            },
    )
}

/// The character of a bit: `'1'` or `'0'`.
pub open spec fn bit_char(b: Bit) -> char {
    if b == Bit::One {
        '1'
    } else {
        '0'
    }
}

/// The bits as text, most significant bit first.
pub open spec fn binary_chars(s: Seq<Bit>) -> Seq<char> {
    Seq::new(s.len(), |i: int| bit_char(s[s.len() - 1 - i]))
}

/// The decimal digit character of `d < 10`.
pub open spec fn digit_char(d: nat) -> char {
    (d + 48) as char
}

/// The decimal digits of `n`, most significant first, without leading zeros.
pub open spec fn decimal_chars(n: nat) -> Seq<char>
    decreases n,
{
    if n < 10 {
        seq![digit_char(n)]
    } else {
        decimal_chars(n / 10).push(digit_char(n % 10))
    }
}

/// The decimal text of an integer: a `'-'` before the digits of a negative one.
pub open spec fn signed_decimal_chars(v: int) -> Seq<char> {
    if v < 0 {
        seq!['-'] + decimal_chars((-v) as nat)
    } else {
        decimal_chars(v as nat)
    }
}

/// Reads binary text into `N` bits, most significant character first.
pub fn parse_bits<const N: usize>(s: &str) -> (r: Result<[Bit; N], NumError>)
    ensures
        match r {
            Ok(b) => is_binary_text(s@, N as nat) && b@ == parse_seq(s@, N as nat),
            Err(e) => !is_binary_text(s@, N as nat) && e == NumError::ParseError,
        },
{
    let len = s.unicode_len();
    if len > N {
        return Err(NumError::ParseError);
    }
    let mut r: [Bit; N] = vstd::array::array_fill_for_copy_types(Bit::Zero);
    let mut i: usize = 0;
    while i < N
        invariant
            len == s@.len(),
            len <= N,
            i <= N,
            r@.len() == N,
            forall|t: int| 0 <= t < len && len - i <= t ==> (s@[t] == '0' || s@[t] == '1'),
            forall|t: int| 0 <= t < i ==> r@[t] == parse_seq(s@, N as nat)[t],
        decreases N - i,
    {
        if i < len {
            let c = s.get_char(len - 1 - i);
            if c == '1' {
                r[i] = Bit::One;
            } else if c == '0' {
                r[i] = Bit::Zero;
            } else {
                assert(!is_binary_text(s@, N as nat)) by {
                    assert(!(s@[len - 1 - i] == '0' || s@[len - 1 - i] == '1'));
                }
                return Err(NumError::ParseError);
            }
        } else {
            r[i] = Bit::Zero;
        }
        i = i + 1;
    }
    assert(is_binary_text(s@, N as nat));
    assert(r@ =~= parse_seq(s@, N as nat));
    Ok(r)
}

/// Relies on `String`'s `FromIterator<char>`: the string holds the characters in order.
#[verifier::external_body]
fn string_from_chars(cs: &Vec<char>) -> (r: String)
    ensures
        r@ == cs@,
{
    cs.iter().collect()
}

/// The bits as text of `'0'` and `'1'`, most significant bit first.
pub fn render_binary<const N: usize>(a: &[Bit; N]) -> (r: String)
    ensures
        r@ == binary_chars(a@),
{
    let mut cs: Vec<char> = Vec::new();
    let mut i: usize = 0;
    while i < N
        invariant
            i <= N,
            a@.len() == N,
            cs@.len() == i,
            forall|t: int| 0 <= t < i ==> cs@[t] == bit_char(a@[N - 1 - t]),
        decreases N - i,
    {
        let c = if a[N - 1 - i] == Bit::One {
            '1'
        } else {
            '0'
        };
        cs.push(c);
        i = i + 1;
    }
    assert(cs@ =~= binary_chars(a@));
    string_from_chars(&cs)
}

/// Appends the decimal digits of `n`.
fn push_decimal(n: u64, out: &mut Vec<char>)
    ensures
        final(out)@ == old(out)@ + decimal_chars(n as nat),
    decreases n,
{
    if n >= 10 {
        push_decimal(n / 10, out);
    }
    let d: u8 = (n % 10) as u8;
    let c = (d + 48) as char;
    out.push(c);
    proof {
        if n < 10 {
            assert(decimal_chars(n as nat) == seq![digit_char(n as nat)]);
        }
    }
    assert(final(out)@ =~= old(out)@ + decimal_chars(n as nat));
}

/// The decimal text of an unsigned value.
pub fn render_unsigned(n: u64) -> (r: String)
    ensures
        r@ == decimal_chars(n as nat),
{
    let mut cs: Vec<char> = Vec::new();
    push_decimal(n, &mut cs);
    assert(cs@ =~= decimal_chars(n as nat));
    string_from_chars(&cs)
}

/// The decimal text of a signed value.
pub fn render_signed(v: i64) -> (r: String)
    ensures
        r@ == signed_decimal_chars(v as int),
{
    let mut cs: Vec<char> = Vec::new();
    if v < 0 {
        cs.push('-');
        let m: u64 = (-(v as i128)) as u64;
        push_decimal(m, &mut cs);
    } else {
        push_decimal(v as u64, &mut cs);
    }
    assert(cs@ =~= signed_decimal_chars(v as int));
    string_from_chars(&cs)
}

} // verus!

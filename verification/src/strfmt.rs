//! Verified building blocks for the small amount of text the engine emits:
//! decimal and hexadecimal renderings of identifiers.

use vstd::prelude::*;

use crate::ascii::string_from_ascii;

verus! {

/// The decimal digits of `n`, most significant first, as ASCII bytes.
pub open spec fn spec_dec_bytes(n: nat) -> Seq<u8>
    decreases n,
{
    if n < 10 {
        seq![(0x30 + n) as u8]
    } else {
        spec_dec_bytes(n / 10).push((0x30 + n % 10) as u8)
    }
}

/// The decimal digits of `n` as characters.
pub open spec fn spec_dec_chars(n: nat) -> Seq<char> {
    spec_dec_bytes(n).map_values(|b: u8| b as char)
}

/// The ASCII byte of one hexadecimal digit, upper case.
pub open spec fn spec_hex_digit(d: nat) -> u8 {
    if d < 10 {
        (0x30 + d) as u8
    } else {
        (0x41 + (d - 10)) as u8
    }
}

/// The hexadecimal digits of `n`, most significant first, upper case, as
/// ASCII bytes.
pub open spec fn spec_hex_bytes(n: nat) -> Seq<u8>
    decreases n,
{
    if n < 16 {
        seq![spec_hex_digit(n)]
    } else {
        spec_hex_bytes(n / 16).push(spec_hex_digit(n % 16))
    }
}

/// The hexadecimal digits of `n` as characters.
pub open spec fn spec_hex_chars(n: nat) -> Seq<char> {
    spec_hex_bytes(n).map_values(|b: u8| b as char)
}

/// Every decimal digit byte is printable ASCII.
proof fn lemma_dec_bytes_ascii(n: nat)
    ensures
        forall|i: int|
            0 <= i < spec_dec_bytes(n).len() ==> 0x30 <= #[trigger] spec_dec_bytes(n)[i] <= 0x39,
    decreases n,
{
    if n < 10 {
        assert(spec_dec_bytes(n)[0] == (0x30 + n) as u8);
    } else {
        lemma_dec_bytes_ascii(n / 10);
        assert forall|i: int| 0 <= i < spec_dec_bytes(n).len() implies 0x30
            <= #[trigger] spec_dec_bytes(n)[i] <= 0x39 by {
            if i < spec_dec_bytes(n / 10).len() {
                assert(spec_dec_bytes(n)[i] == spec_dec_bytes(n / 10)[i]);
            } else {
                assert(spec_dec_bytes(n)[i] == (0x30 + n % 10) as u8);
            }
        }
    }
}

/// Every hexadecimal digit byte is printable ASCII.
proof fn lemma_hex_bytes_ascii(n: nat)
    ensures
        forall|i: int|
            0 <= i < spec_hex_bytes(n).len() ==> 0x30 <= #[trigger] spec_hex_bytes(n)[i] <= 0x46,
    decreases n,
{
    if n < 16 {
        assert(spec_hex_bytes(n)[0] == spec_hex_digit(n));
    } else {
        lemma_hex_bytes_ascii(n / 16);
        assert forall|i: int| 0 <= i < spec_hex_bytes(n).len() implies 0x30
            <= #[trigger] spec_hex_bytes(n)[i] <= 0x46 by {
            if i < spec_hex_bytes(n / 16).len() {
                assert(spec_hex_bytes(n)[i] == spec_hex_bytes(n / 16)[i]);
            } else {
                assert(spec_hex_bytes(n)[i] == spec_hex_digit(n % 16));
            }
        }
    }
}

/// The decimal digit bytes of `n`, most significant first.
fn dec_bytes(n: u64) -> (r: Vec<u8>)
    ensures
        r@ == spec_dec_bytes(n as nat),
{
    let mut rev: Vec<u8> = Vec::new();
    let mut rest: u64 = n;
    loop
        invariant_except_break
            rev@.len() > 0 ==> rest > 0 && spec_dec_bytes(n as nat) == spec_dec_bytes(rest as nat)
                + rev@.reverse(),
        invariant
            rev@.len() == 0 ==> rest == n,
        ensures
            spec_dec_bytes(n as nat) == rev@.reverse(),
        decreases rest,
    {
        let digit = (rest % 10) as u8;
        let ghost rev_pre = rev@;
        rev.push(0x30 + digit);
        let ghost rest_pre = rest as nat;
        rest = rest / 10;
        proof {
            assert(rev@.reverse() =~= seq![(0x30 + rest_pre % 10) as u8] + rev_pre.reverse());
            if rev_pre.len() == 0 {
                assert(spec_dec_bytes(n as nat) =~= spec_dec_bytes(rest_pre) + rev_pre.reverse());
            }
            if rest_pre >= 10 {
                assert(spec_dec_bytes(rest_pre) =~= spec_dec_bytes(rest_pre / 10).push(
                    (0x30 + rest_pre % 10) as u8,
                ));
                assert(spec_dec_bytes(n as nat) =~= spec_dec_bytes((rest_pre / 10) as nat)
                    + rev@.reverse());
            } else {
                assert(spec_dec_bytes(rest_pre) =~= seq![(0x30 + rest_pre) as u8]);
                assert(spec_dec_bytes(n as nat) =~= rev@.reverse());
            }
        }
        if rest == 0 {
            break;
        }
    }
    let mut out: Vec<u8> = Vec::new();
    let mut i: usize = rev.len();
    while i > 0
        invariant
            i <= rev@.len(),
            out@ =~= rev@.subrange(i as int, rev@.len() as int).reverse(),
        decreases i,
    {
        i = i - 1;
        out.push(rev[i]);
        assert(out@ =~= rev@.subrange(i as int, rev@.len() as int).reverse());
    }
    assert(rev@.subrange(0, rev@.len() as int) =~= rev@);
    assert(out@ =~= rev@.reverse());
    out
}

/// The hexadecimal digit bytes of `n`, most significant first.
fn hex_bytes(n: u64) -> (r: Vec<u8>)
    ensures
        r@ == spec_hex_bytes(n as nat),
{
    let mut rev: Vec<u8> = Vec::new();
    let mut rest: u64 = n;
    loop
        invariant_except_break
            rev@.len() > 0 ==> rest > 0 && spec_hex_bytes(n as nat) == spec_hex_bytes(rest as nat)
                + rev@.reverse(),
        invariant
            rev@.len() == 0 ==> rest == n,
        ensures
            spec_hex_bytes(n as nat) == rev@.reverse(),
        decreases rest,
    {
        let digit = (rest % 16) as u8;
        let byte = if digit < 10 {
            0x30 + digit
        } else {
            0x41 + (digit - 10)
        };
        assert(byte == spec_hex_digit((rest % 16) as nat));
        let ghost rev_pre = rev@;
        rev.push(byte);
        let ghost rest_pre = rest as nat;
        rest = rest / 16;
        proof {
            assert(rev@.reverse() =~= seq![spec_hex_digit(rest_pre % 16)] + rev_pre.reverse());
            if rev_pre.len() == 0 {
                assert(spec_hex_bytes(n as nat) =~= spec_hex_bytes(rest_pre) + rev_pre.reverse());
            }
            if rest_pre >= 16 {
                assert(spec_hex_bytes(rest_pre) =~= spec_hex_bytes(rest_pre / 16).push(
                    spec_hex_digit(rest_pre % 16),
                ));
                assert(spec_hex_bytes(n as nat) =~= spec_hex_bytes((rest_pre / 16) as nat)
                    + rev@.reverse());
            } else {
                assert(spec_hex_bytes(rest_pre) =~= seq![spec_hex_digit(rest_pre)]);
                assert(spec_hex_bytes(n as nat) =~= rev@.reverse());
            }
        }
        if rest == 0 {
            break;
        }
    }
    let mut out: Vec<u8> = Vec::new();
    let mut i: usize = rev.len();
    while i > 0
        invariant
            i <= rev@.len(),
            out@ =~= rev@.subrange(i as int, rev@.len() as int).reverse(),
        decreases i,
    {
        i = i - 1;
        out.push(rev[i]);
        assert(out@ =~= rev@.subrange(i as int, rev@.len() as int).reverse());
    }
    assert(rev@.subrange(0, rev@.len() as int) =~= rev@);
    assert(out@ =~= rev@.reverse());
    out
}

/// Render `n` in decimal.
pub fn dec_string(n: u64) -> (r: String)
    ensures
        r@ == spec_dec_chars(n as nat),
{
    let bytes = dec_bytes(n);
    proof {
        lemma_dec_bytes_ascii(n as nat);
    }
    string_from_ascii(&bytes)
}

/// Render `n` in upper-case hexadecimal, without a prefix.
pub fn hex_string(n: u64) -> (r: String)
    ensures
        r@ == spec_hex_chars(n as nat),
{
    let bytes = hex_bytes(n);
    proof {
        lemma_hex_bytes_ascii(n as nat);
    }
    string_from_ascii(&bytes)
}

} // verus!

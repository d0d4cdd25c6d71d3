//! Decimal rendering of integers and small, fully specified text helpers.

use vstd::prelude::*;

verus! {

/// The ASCII decimal digits of `n`, most significant first.
pub open spec fn dec_bytes(n: nat) -> Seq<u8>
    decreases n,
{
    if n < 10 {
        seq![(0x30 + n) as u8]
    } else {
        dec_bytes(n / 10) + seq![(0x30 + n % 10) as u8]
    }
}

pub proof fn lemma_dec_bytes_nonempty(n: nat)
    ensures
        dec_bytes(n).len() >= 1,
{
}

/// Appends the decimal digits of `n` to `out`.
pub fn push_dec(out: &mut Vec<u8>, n: u64)
    ensures
        final(out)@ == old(out)@ + dec_bytes(n as nat),
    decreases n,
{
    if n < 10 {
        out.push(0x30 + n as u8);
        assert(out@ =~= old(out)@ + dec_bytes(n as nat));
    } else {
        push_dec(out, n / 10);
        out.push(0x30 + (n % 10) as u8);
        assert(out@ =~= old(out)@ + dec_bytes(n as nat));
    }
}

/// The bytes of `s`, read as characters. Meaningful for ASCII bytes.
pub open spec fn bytes_as_chars(s: Seq<u8>) -> Seq<char> {
    s.map_values(|b: u8| b as char)
}

/// Relies on `String::from_utf8`: ASCII bytes decode to exactly those
/// characters, so the call cannot fail and the view maps byte for byte.
#[verifier::external_body]
pub fn ascii_to_string(bytes: Vec<u8>) -> (r: String)
    requires
        forall|i: int| 0 <= i < bytes@.len() ==> bytes@[i] < 0x80,
    ensures
        r@ == bytes_as_chars(bytes@),
{
    String::from_utf8(bytes).unwrap_or_default()
}

/// What `seconds_to_string` renders, as bytes: `{h}h {m}m {s}s`, in which
/// every zero component is left out entirely.
pub open spec fn seconds_bytes(secs: nat) -> Seq<u8> {
    let s = secs % 60;
    let m = (secs / 60) % 60;
    let h = (secs / 60) / 60;
    let hstr = if h != 0 {
        dec_bytes(h) + seq![0x68u8, 0x20u8]
    } else {
        Seq::<u8>::empty()
    };
    let mstr = if m != 0 {
        dec_bytes(m) + seq![0x6du8, 0x20u8]
    } else {
        Seq::<u8>::empty()
    };
    let sstr = if s != 0 {
        dec_bytes(s) + seq![0x73u8]
    } else {
        Seq::<u8>::empty()
    };
    hstr + mstr + sstr
}

/// What `seconds_to_string` returns.
pub open spec fn seconds_chars(secs: nat) -> Seq<char> {
    bytes_as_chars(seconds_bytes(secs))
}

proof fn lemma_dec_bytes_ascii(n: nat)
    ensures
        forall|i: int| 0 <= i < dec_bytes(n).len() ==> dec_bytes(n)[i] < 0x80,
    decreases n,
{
    if n >= 10 {
        lemma_dec_bytes_ascii(n / 10);
        assert(forall|i: int| 0 <= i < dec_bytes(n).len() ==> dec_bytes(n)[i] < 0x80) by {
            assert(dec_bytes(n) == dec_bytes(n / 10) + seq![(0x30 + n % 10) as u8]);
            assert(forall|i: int|
                0 <= i < dec_bytes(n / 10).len() ==> dec_bytes(n)[i] == dec_bytes(n / 10)[i]);
        }
    }
}

/// Renders a duration in seconds as hours, minutes and seconds, leaving out
/// every component that is zero.
pub fn seconds_to_string(secs: u64) -> (r: String)
    ensures
        r@ == seconds_chars(secs as nat),
{
    let s = secs % 60;
    let m = (secs / 60) % 60;
    let h = (secs / 60) / 60;
    let mut out: Vec<u8> = Vec::new();
    if h != 0 {
        push_dec(&mut out, h);
        out.push(0x68);
        out.push(0x20);
    }
    if m != 0 {
        push_dec(&mut out, m);
        out.push(0x6d);
        out.push(0x20);
    }
    if s != 0 {
        push_dec(&mut out, s);
        out.push(0x73);
    }
    proof {
        lemma_dec_bytes_ascii(h as nat);
        lemma_dec_bytes_ascii(m as nat);
        lemma_dec_bytes_ascii(s as nat);
        assert(out@ =~= seconds_bytes(secs as nat));
    }
    ascii_to_string(out)
}

/// Renders any displayable value as a string, as the platform would show it.
/// The call is `ToString::to_string`, whose behaviour vstd specifies.
pub fn to_string<T: core::fmt::Display>(a: T) -> String {
    a.to_string()
}

} // verus!

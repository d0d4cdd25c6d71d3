//! Content fingerprinting: message text is normalized (lowercased, with
//! mention/emoji segments between `<` and `>` and every non-alphanumeric
//! character removed) and hashed to a 128-bit value, optionally salted and
//! scoped by guild and channel so that private guilds do not share a
//! fingerprint namespace.

use vstd::prelude::*;

use vstd::string::StringSliceAdditionalSpecFns;
use vstd::string::StrSliceExecFns;

use crate::text::dec_bytes;
use crate::text::push_dec;

verus! {

pub const OPEN_ANGLE: u8 = 0x3c;

pub const CLOSE_ANGLE: u8 = 0x3e;

pub open spec fn is_digit_byte(b: u8) -> bool {
    0x30 <= b <= 0x39
}

pub open spec fn is_lower_byte(b: u8) -> bool {
    0x61 <= b <= 0x7a
}

pub open spec fn is_upper_byte(b: u8) -> bool {
    0x41 <= b <= 0x5a
}

/// A byte that survives normalization: an ASCII alphanumeric.
pub open spec fn is_kept_byte(b: u8) -> bool {
    is_digit_byte(b) || is_lower_byte(b) || is_upper_byte(b)
}

pub open spec fn lower_byte(b: u8) -> u8 {
    if is_upper_byte(b) {
        (b + 0x20) as u8
    } else {
        b
    }
}

/// Whether a closing `>` occurs at or after position `i`.
pub open spec fn has_close(s: Seq<u8>, i: int) -> bool {
    exists|j: int| i <= j < s.len() && s[j] == CLOSE_ANGLE
}

/// Normalization outside any `<`..`>` segment: a `<` with a later `>` opens
/// a segment that is dropped whole; alphanumerics are kept lowercased; every
/// other byte is dropped. A `<` that is never closed is dropped by itself.
pub open spec fn norm_outside(s: Seq<u8>, i: int) -> Seq<u8>
    decreases s.len() - i,
{
    if i < 0 || i >= s.len() {
        Seq::empty()
    } else if s[i] == OPEN_ANGLE && has_close(s, i + 1) {
        norm_inside(s, i + 1)
    } else if is_kept_byte(s[i]) {
        seq![lower_byte(s[i])] + norm_outside(s, i + 1)
    } else {
        norm_outside(s, i + 1)
    }
}

/// Normalization inside a `<`..`>` segment: everything up to and including
/// the next `>` is dropped.
pub open spec fn norm_inside(s: Seq<u8>, i: int) -> Seq<u8>
    decreases s.len() - i,
{
    if i < 0 || i >= s.len() {
        Seq::empty()
    } else if s[i] == CLOSE_ANGLE {
        norm_outside(s, i + 1)
    } else {
        norm_inside(s, i + 1)
    }
}

/// The normalized form of a message: lowercased ASCII alphanumerics with
/// bracketed segments and all other bytes removed.
pub open spec fn normalize_bytes(s: Seq<u8>) -> Seq<u8> {
    norm_outside(s, 0)
}

fn find_close(bytes: &Vec<u8>, from: usize) -> (r: bool)
    requires
        from <= bytes@.len(),
    ensures
        r == has_close(bytes@, from as int),
{
    let mut j = from;
    while j < bytes.len()
        invariant
            from <= j <= bytes@.len(),
            forall|k: int| from <= k < j ==> bytes@[k] != CLOSE_ANGLE,
        decreases bytes@.len() - j,
    {
        if bytes[j] == CLOSE_ANGLE {
            return true;
        }
        j += 1;
    }
    false
}

/// Normalizes message text: lowercases ASCII letters, removes every segment
/// delimited by `<` and `>`, and removes every byte that is not an ASCII
/// alphanumeric. Punctuation and whitespace variation therefore cannot evade
/// duplicate detection.
pub fn normalize(content: &str) -> (r: Vec<u8>)
    ensures
        r@ == normalize_bytes(content.spec_bytes()),
{
    let bytes = content.as_bytes_vec();
    let mut out: Vec<u8> = Vec::new();
    let mut inside: bool = false;
    let mut i: usize = 0;
    while i < bytes.len()
        invariant
            i <= bytes@.len(),
            bytes@ == content.spec_bytes(),
            inside ==> has_close(bytes@, i as int),
            normalize_bytes(content.spec_bytes()) == out@ + (if inside {
                norm_inside(bytes@, i as int)
            } else {
                norm_outside(bytes@, i as int)
            }),
        decreases bytes@.len() - i,
    {
        let ghost out0 = out@;
        let b = bytes[i];
        if inside {
            if b == CLOSE_ANGLE {
                inside = false;
            }
        } else {
            if b == OPEN_ANGLE && find_close(&bytes, i + 1) {
                inside = true;
            } else if (0x30 <= b && b <= 0x39) || (0x61 <= b && b <= 0x7a) {
                out.push(b);
                assert(out@ + norm_outside(bytes@, i + 1) =~= out0 + (seq![lower_byte(
                    bytes@[i as int],
                )] + norm_outside(bytes@, i + 1)));
            } else if 0x41 <= b && b <= 0x5a {
                out.push(b + 0x20);
                assert(out@ + norm_outside(bytes@, i + 1) =~= out0 + (seq![lower_byte(
                    bytes@[i as int],
                )] + norm_outside(bytes@, i + 1)));
            }
        }
        i += 1;
    }
    out
}

/// The 128-bit CityHash digest of a byte sequence. What the digest is takes
/// pages to state; it is a pure function of the bytes alone, which is all the
/// duplicate detector needs.
pub uninterp spec fn city128_of(bytes: Seq<u8>) -> u128;

/// Relies on fasthash's `city::hash128`: a 128-bit CityHash digest computed
/// from the input bytes alone.
#[verifier::external_body]
fn city128(bytes: &Vec<u8>) -> (r: u128)
    ensures
        r == city128_of(bytes@),
{
    fasthash::city::hash128(bytes.as_slice())
}

/// The hash input for a guild that keeps its own private fingerprint space:
/// the secret salt, the normalized text, and the decimal renderings of the
/// guild and channel ids.
pub open spec fn scoped_input(
    salt: Seq<u8>,
    content: Seq<u8>,
    guild_id: u64,
    channel_id: u64,
) -> Seq<u8> {
    salt + normalize_bytes(content) + dec_bytes(guild_id as nat) + dec_bytes(channel_id as nat)
}

/// The global-mode fingerprint: the CityHash digest of the normalized text
/// alone, shared across every guild that opts into the global dataset.
pub fn hash(content: &str) -> (r: u128)
    ensures
        r == city128_of(normalize_bytes(content.spec_bytes())),
{
    let normalized = normalize(content);
    city128(&normalized)
}

/// The private-mode fingerprint: the digest of the salted, guild- and
/// channel-scoped input, so identical text in different private scopes does
/// not collide by construction of the input.
pub fn hash_scoped(salt: &str, content: &str, guild_id: u64, channel_id: u64) -> (r: u128)
    ensures
        r == city128_of(
            scoped_input(salt.spec_bytes(), content.spec_bytes(), guild_id, channel_id),
        ),
{
    let mut input = salt.as_bytes_vec();
    let mut normalized = normalize(content);
    input.append(&mut normalized);
    push_dec(&mut input, guild_id);
    push_dec(&mut input, channel_id);
    city128(&input)
}

/// Texts that normalize alike fingerprint alike, under the same scope:
/// case, punctuation, whitespace and bracketed segments cannot evade
/// duplicate detection.
pub proof fn lemma_same_normalization_same_fingerprint(
    a: Seq<u8>,
    b: Seq<u8>,
    salt: Seq<u8>,
    guild_id: u64,
    channel_id: u64,
)
    requires
        normalize_bytes(a) == normalize_bytes(b),
    ensures
        city128_of(normalize_bytes(a)) == city128_of(normalize_bytes(b)),
        city128_of(scoped_input(salt, a, guild_id, channel_id)) == city128_of(
            scoped_input(salt, b, guild_id, channel_id),
        ),
{
}

/// A private-mode hash input never coincides with the global-mode input of
/// the same text: the salt and the id renderings make it strictly longer.
pub proof fn lemma_scoped_input_differs_from_global(
    salt: Seq<u8>,
    content: Seq<u8>,
    guild_id: u64,
    channel_id: u64,
)
    ensures
        scoped_input(salt, content, guild_id, channel_id) != normalize_bytes(content),
{
    crate::text::lemma_dec_bytes_nonempty(guild_id as nat);
    crate::text::lemma_dec_bytes_nonempty(channel_id as nat);
    assert(scoped_input(salt, content, guild_id, channel_id).len() > normalize_bytes(
        content,
    ).len());
}

/// Distinct salts of equal length give distinct private-mode hash inputs for
/// the same text and scope ids.
pub proof fn lemma_distinct_salts_distinct_inputs(
    s1: Seq<u8>,
    s2: Seq<u8>,
    content: Seq<u8>,
    guild_id: u64,
    channel_id: u64,
)
    requires
        s1.len() == s2.len(),
        s1 != s2,
    ensures
        scoped_input(s1, content, guild_id, channel_id) != scoped_input(
            s2,
            content,
            guild_id,
            channel_id,
        ),
{
    if s1 =~= s2 {
        assert(false);
    }
    let i = choose|i: int| 0 <= i < s1.len() && s1[i] != s2[i];
    assert(scoped_input(s1, content, guild_id, channel_id)[i] == s1[i]);
    assert(scoped_input(s2, content, guild_id, channel_id)[i] == s2[i]);
}

/// Scopes whose id renderings differ give distinct private-mode hash inputs
/// for the same salt and text.
pub proof fn lemma_distinct_scopes_distinct_inputs(
    salt: Seq<u8>,
    content: Seq<u8>,
    g1: u64,
    c1: u64,
    g2: u64,
    c2: u64,
)
    requires
        dec_bytes(g1 as nat) + dec_bytes(c1 as nat) != dec_bytes(g2 as nat) + dec_bytes(c2 as nat),
    ensures
        scoped_input(salt, content, g1, c1) != scoped_input(salt, content, g2, c2),
{
    let p = salt + normalize_bytes(content);
    let t1 = dec_bytes(g1 as nat) + dec_bytes(c1 as nat);
    let t2 = dec_bytes(g2 as nat) + dec_bytes(c2 as nat);
    assert(scoped_input(salt, content, g1, c1) =~= p + t1);
    assert(scoped_input(salt, content, g2, c2) =~= p + t2);
    if p + t1 == p + t2 {
        assert(t1 =~= t2) by {
            assert(forall|i: int|
                0 <= i < t1.len() ==> t1[i] == (p + t1)[p.len() + i] && t2[i] == (p + t2)[p.len()
                    + i]);
        }
        assert(false);
    }
}

} // verus!

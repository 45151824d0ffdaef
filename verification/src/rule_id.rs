//! Deterministic rule identifiers: `rule_<hex>` where the hex digits encode
//! the FNV-1a 64-bit hash of the rule text's UTF-8 bytes. The hash is a pure
//! function of the text, so the same rule yields the same identifier across
//! restarts and across hosts.

use vstd::prelude::*;

use crate::text::chars_to_string;

verus! {

pub const FNV_OFFSET_BASIS: u64 = 0xcbf29ce484222325;

pub const FNV_PRIME: u64 = 0x100000001b3;

/// FNV-1a 64-bit over the bytes from index `i` on, with accumulator `h`.
pub open spec fn fnv1a_from(bytes: Seq<u8>, i: int, h: u64) -> u64
    decreases bytes.len() - i,
{
    if i < 0 || i >= bytes.len() {
        h
    } else {
        fnv1a_from(bytes, i + 1, vstd::wrapping::u64_specs::wrapping_mul(h ^ (bytes[i] as u64), FNV_PRIME))
    }
}

/// FNV-1a 64-bit hash of a byte sequence.
pub open spec fn fnv1a64(bytes: Seq<u8>) -> u64 {
    fnv1a_from(bytes, 0, FNV_OFFSET_BASIS)
}

pub open spec fn hex_digit(n: int) -> char {
    if n == 0 { '0' } else if n == 1 { '1' } else if n == 2 { '2' } else if n == 3 { '3' }
    else if n == 4 { '4' } else if n == 5 { '5' } else if n == 6 { '6' } else if n == 7 { '7' }
    else if n == 8 { '8' } else if n == 9 { '9' } else if n == 10 { 'a' } else if n == 11 { 'b' }
    else if n == 12 { 'c' } else if n == 13 { 'd' } else if n == 14 { 'e' } else { 'f' }
}

/// Lower-case hexadecimal digits of `n`, without leading zeros, as
/// `{:x}` formatting writes them.
pub open spec fn hex_chars(n: int) -> Seq<char>
    decreases n,
{
    if n < 16 {
        seq![hex_digit(n)]
    } else {
        hex_chars(n / 16).push(hex_digit(n % 16))
    }
}

/// The identifier derived from a rule line.
pub open spec fn id_of(content: Seq<char>) -> Seq<char> {
    "rule_"@ + hex_chars(fnv1a64(vstd::utf8::encode_utf8(content)) as int)
}

proof fn lemma_hex_digit_injective(a: int, b: int)
    requires
        0 <= a < 16,
        0 <= b < 16,
        hex_digit(a) == hex_digit(b),
    ensures
        a == b,
{
}

proof fn lemma_hex_chars_len(n: int)
    requires
        n >= 0,
    ensures
        hex_chars(n).len() >= 1,
    decreases n,
{
    if n >= 16 {
        lemma_hex_chars_len(n / 16);
    }
}

/// Distinct numbers have distinct hex renderings.
pub proof fn lemma_hex_chars_injective(a: int, b: int)
    requires
        a >= 0,
        b >= 0,
        hex_chars(a) == hex_chars(b),
    ensures
        a == b,
    decreases a,
{
    lemma_hex_chars_len(a);
    lemma_hex_chars_len(b);
    if a < 16 && b < 16 {
        if a != b {
            assert(hex_chars(a)[0] == hex_digit(a));
            assert(hex_chars(b)[0] == hex_digit(b));
            lemma_hex_digit_injective(a, b);
        }
    } else if a < 16 && b >= 16 {
        lemma_hex_chars_len(b / 16);
        assert(hex_chars(b).len() >= 2);
    } else if a >= 16 && b < 16 {
        lemma_hex_chars_len(a / 16);
        assert(hex_chars(a).len() >= 2);
    } else {
        let ha = hex_chars(a / 16);
        let hb = hex_chars(b / 16);
        assert(hex_chars(a).last() == hex_digit(a % 16));
        assert(hex_chars(b).last() == hex_digit(b % 16));
        lemma_hex_digit_injective(a % 16, b % 16);
        assert(hex_chars(a).drop_last() =~= ha);
        assert(hex_chars(b).drop_last() =~= hb);
        lemma_hex_chars_injective(a / 16, b / 16);
    }
}

/// Identifier equality forces hash equality: all that can collide in the
/// identifier is the 64-bit hash itself.
pub proof fn lemma_id_collision_is_hash_collision(a: Seq<char>, b: Seq<char>)
    requires
        id_of(a) == id_of(b),
    ensures
        fnv1a64(vstd::utf8::encode_utf8(a)) == fnv1a64(vstd::utf8::encode_utf8(b)),
{
    let ha = fnv1a64(vstd::utf8::encode_utf8(a)) as int;
    let hb = fnv1a64(vstd::utf8::encode_utf8(b)) as int;
    let p = "rule_"@;
    assert(hex_chars(ha) =~= id_of(a).skip(p.len() as int));
    assert(hex_chars(hb) =~= id_of(b).skip(p.len() as int));
    lemma_hex_chars_injective(ha, hb);
}

/// The identifier is a function of the rule text alone: equal texts give
/// equal identifiers.
pub proof fn lemma_id_deterministic(a: Seq<char>, b: Seq<char>)
    requires
        a == b,
    ensures
        id_of(a) == id_of(b),
{
}

/// Hash a byte vector with FNV-1a 64.
fn fnv1a_hash(bytes: &Vec<u8>) -> (r: u64)
    ensures
        r == fnv1a64(bytes@),
{
    let n: usize = bytes.len();
    let mut h: u64 = FNV_OFFSET_BASIS;
    let mut i: usize = 0;
    while i < n
        invariant
            n == bytes@.len(),
            i <= n,
            fnv1a64(bytes@) == fnv1a_from(bytes@, i as int, h),
        decreases n - i,
    {
        h = (h ^ (bytes[i] as u64)).wrapping_mul(FNV_PRIME);
        i = i + 1;
    }
    h
}

fn hex_digit_exec(n: u64) -> (r: char)
    requires
        n < 16,
    ensures
        r == hex_digit(n as int),
{
    if n == 0 { '0' } else if n == 1 { '1' } else if n == 2 { '2' } else if n == 3 { '3' }
    else if n == 4 { '4' } else if n == 5 { '5' } else if n == 6 { '6' } else if n == 7 { '7' }
    else if n == 8 { '8' } else if n == 9 { '9' } else if n == 10 { 'a' } else if n == 11 { 'b' }
    else if n == 12 { 'c' } else if n == 13 { 'd' } else if n == 14 { 'e' } else { 'f' }
}

fn hex_digits_onto(n: u64, out: &mut Vec<char>)
    ensures
        final(out)@ == old(out)@ + hex_chars(n as int),
    decreases n,
{
    if n < 16 {
        out.push(hex_digit_exec(n));
        assert(final(out)@ =~= old(out)@ + hex_chars(n as int));
    } else {
        let ghost pre = out@;
        hex_digits_onto(n / 16, out);
        out.push(hex_digit_exec(n % 16));
        proof {
            assert((pre + hex_chars(n as int / 16)).push(hex_digit(n as int % 16))
                =~= pre + hex_chars(n as int / 16).push(hex_digit(n as int % 16)));
        }
    }
}

/// Derive the identifier of a rule line: `rule_` followed by the lower-case
/// hex digits of the FNV-1a 64-bit hash of the line's UTF-8 bytes.
pub fn generate_rule_id(rule_content: &str) -> (r: String)
    ensures
        r@ == id_of(rule_content@),
{
    let bytes = rule_content.as_bytes_vec();
    let h = fnv1a_hash(&bytes);
    let mut hx: Vec<char> = Vec::new();
    hex_digits_onto(h, &mut hx);
    let tail = chars_to_string(&hx);
    let s = String::from_str("rule_");
    let r = s.concat(tail.as_str());
    proof {
        assert(r@ =~= id_of(rule_content@));
    }
    r
}

/// Derive the identifier of a rule line held as a character vector.
pub fn rule_id_of_chars(line: &Vec<char>) -> (r: String)
    ensures
        r@ == id_of(line@),
{
    let s = chars_to_string(line);
    generate_rule_id(s.as_str())
}

} // verus!

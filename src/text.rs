//! Bounded response text, held in `heapless::String<64>`.
use vstd::prelude::*;

verus! {

/// `heapless::String`, a fixed-capacity string; its contents are seen only
/// through `text_bytes`.
#[verifier::external_type_specification]
#[verifier::external_body]
pub struct ExHeaplessString<const N: usize>(heapless::String<N>);

/// The bytes that a line of text holds, in order.
pub uninterp spec fn text_bytes(s: heapless::String<64>) -> Seq<u8>;

/// True when every character of `s` is ASCII.
pub open spec fn is_ascii(s: Seq<char>) -> bool {
    forall|i: int| 0 <= i < s.len() ==> (s[i] as u32) < 128
}

/// The bytes of an ASCII string, one per character.
pub open spec fn ascii_bytes(s: Seq<char>) -> Seq<u8> {
    s.map_values(|c: char| c as u32 as u8)
}

/// Decimal digits of `n`, most significant first, without leading zeros.
pub open spec fn decimal(n: nat) -> Seq<u8>
    decreases n,
{
    if n < 10 {
        seq![(48 + n) as u8]
    } else {
        decimal(n / 10).push((48 + n % 10) as u8)
    }
}

/// Ten to the power `k`.
pub open spec fn pow10(k: nat) -> nat
    decreases k,
{
    if k == 0 {
        1
    } else {
        10 * pow10((k - 1) as nat)
    }
}

/// A number below `10^k` takes at most `k` digits.
pub proof fn lemma_decimal_len(n: nat, k: nat)
    requires
        k >= 1,
        n < pow10(k),
    ensures
        1 <= decimal(n).len() <= k,
    decreases n,
{
    if n >= 10 {
        assert(k >= 2) by {
            if k == 1 {
                assert(pow10(1) == 10 * pow10(0));
            }
        }
        let k1 = (k - 1) as nat;
        assert(n / 10 < pow10(k1)) by (nonlinear_arith)
            requires
                n < pow10(k),
                pow10(k) == 10 * pow10(k1),
        ;
        lemma_decimal_len(n / 10, k1);
    }
}

/// Relies on `heapless::String::new`: the new string is empty.
#[verifier::external_body]
pub(crate) fn text_new() -> (r: heapless::String<64>)
    ensures
        text_bytes(r) == Seq::<u8>::empty(),
{
    heapless::String::new()
}

/// Relies on `heapless::String::push_str`: the bytes of `t` are appended when
/// they fit in the capacity; otherwise nothing changes and `Err` comes back.
#[verifier::external_body]
pub(crate) fn text_push_str(s: &mut heapless::String<64>, t: &str) -> (r: Result<(), ()>)
    requires
        is_ascii(t@),
    ensures
        text_bytes(*old(s)).len() + t@.len() <= 64 ==> r is Ok && text_bytes(*final(s))
            == text_bytes(*old(s)) + ascii_bytes(t@),
        text_bytes(*old(s)).len() + t@.len() > 64 ==> r is Err && text_bytes(*final(s))
            == text_bytes(*old(s)),
{
    s.push_str(t)
}

/// The UTF-8 bytes of the character with code point `c` (`c as char`): the
/// byte itself below 128, else a two-byte sequence.
pub open spec fn char_utf8(c: u8) -> Seq<u8> {
    if c < 128 {
        seq![c]
    } else {
        seq![(192 + c / 64) as u8, (128 + c % 64) as u8]
    }
}

/// Relies on `heapless::String::push` with the character `c as char`: its
/// UTF-8 bytes are appended when they fit in the capacity; otherwise nothing
/// changes and `Err` comes back.
#[verifier::external_body]
pub(crate) fn text_push(s: &mut heapless::String<64>, c: u8) -> (r: Result<(), ()>)
    ensures
        text_bytes(*old(s)).len() + char_utf8(c).len() <= 64 ==> r is Ok && text_bytes(
            *final(s),
        ) == text_bytes(*old(s)) + char_utf8(c),
        text_bytes(*old(s)).len() + char_utf8(c).len() > 64 ==> r is Err && text_bytes(
            *final(s),
        ) == text_bytes(*old(s)),
{
    s.push(c as char)
}

/// Appends the ASCII string `t`, which must fit.
pub(crate) fn push_ascii(s: &mut heapless::String<64>, t: &str)
    requires
        is_ascii(t@),
        text_bytes(*old(s)).len() + t@.len() <= 64,
    ensures
        text_bytes(*final(s)) == text_bytes(*old(s)) + ascii_bytes(t@),
{
    let _ = text_push_str(s, t);
}

/// Appends the decimal digits of `n`, which must fit.
pub(crate) fn push_decimal(s: &mut heapless::String<64>, n: u64)
    requires
        text_bytes(*old(s)).len() + decimal(n as nat).len() <= 64,
    ensures
        text_bytes(*final(s)) == text_bytes(*old(s)) + decimal(n as nat),
    decreases n,
{
    let ghost s0 = text_bytes(*s);
    if n >= 10 {
        push_decimal(s, n / 10);
    }
    let _ = text_push(s, (48 + n % 10) as u8);
    assert(text_bytes(*s) =~= s0 + decimal(n as nat));
}

} // verus!

//! Fixed-capacity text labels held in `heapless::String`, and decimal digits.

use vstd::prelude::*;

verus! {

#[verifier::external_type_specification]
#[verifier::external_body]
pub struct ExHeaplessString<const N: usize>(heapless::String<N>);

/// The bytes held by a five-byte label.
pub uninterp spec fn label5_bytes(s: heapless::String<5>) -> Seq<u8>;

/// The bytes held by an eight-byte label.
pub uninterp spec fn label8_bytes(s: heapless::String<8>) -> Seq<u8>;

/// `heapless::String::<5>::new`: an empty label.
#[verifier::external_body]
pub(crate) fn label5_new() -> (s: heapless::String<5>)
    ensures
        label5_bytes(s) == Seq::<u8>::empty(),
{
    heapless::String::new()
}

/// The byte length of a five-byte label (`heapless::String::as_str`, then
/// `str::len`); the capacity bounds it.
#[verifier::external_body]
pub(crate) fn label5_len(s: &heapless::String<5>) -> (n: usize)
    ensures
        n == label5_bytes(*s).len(),
        n <= 5,
{
    s.as_str().len()
}

/// `heapless::String::<5>::push` of an ASCII character: it is appended when
/// one byte of room is left, and the label is left as it was otherwise.
#[verifier::external_body]
pub(crate) fn label5_push(s: &mut heapless::String<5>, b: u8) -> (r: Result<(), ()>)
    requires
        b < 128,
    ensures
        label5_bytes(*old(s)).len() < 5 ==> r is Ok && label5_bytes(*final(s)) == label5_bytes(
            *old(s),
        ).push(b),
        label5_bytes(*old(s)).len() >= 5 ==> r is Err && label5_bytes(*final(s)) == label5_bytes(
            *old(s),
        ),
{
    s.push(b as char)
}

/// `heapless::String::<8>::new`: an empty label.
#[verifier::external_body]
pub(crate) fn label8_new() -> (s: heapless::String<8>)
    ensures
        label8_bytes(s) == Seq::<u8>::empty(),
{
    heapless::String::new()
}

/// The byte length of an eight-byte label (`heapless::String::as_str`, then
/// `str::len`); the capacity bounds it.
#[verifier::external_body]
pub(crate) fn label8_len(s: &heapless::String<8>) -> (n: usize)
    ensures
        n == label8_bytes(*s).len(),
        n <= 8,
{
    s.as_str().len()
}

/// `heapless::String::<8>::push` of an ASCII character: it is appended when
/// one byte of room is left, and the label is left as it was otherwise.
#[verifier::external_body]
pub(crate) fn label8_push(s: &mut heapless::String<8>, b: u8) -> (r: Result<(), ()>)
    requires
        b < 128,
    ensures
        label8_bytes(*old(s)).len() < 8 ==> r is Ok && label8_bytes(*final(s)) == label8_bytes(
            *old(s),
        ).push(b),
        label8_bytes(*old(s)).len() >= 8 ==> r is Err && label8_bytes(*final(s)) == label8_bytes(
            *old(s),
        ),
{
    s.push(b as char)
}

/// The ASCII decimal representation of `n`, most significant digit first.
pub open spec fn decimal_bytes(n: nat) -> Seq<u8>
    decreases n,
{
    if n < 10 {
        seq![(48 + n) as u8]
    } else {
        decimal_bytes(n / 10).push((48 + n % 10) as u8)
    }
}

/// Every byte is an ASCII character.
pub open spec fn is_ascii_bytes(s: Seq<u8>) -> bool {
    forall|i: int| 0 <= i < s.len() ==> #[trigger] s[i] < 128
}

/// What one `write_str` of `piece` leaves in a label of capacity `cap` that
/// held `held`: the piece is appended whole when it fits, and nothing is
/// written otherwise.
pub open spec fn label_append(held: Seq<u8>, piece: Seq<u8>, cap: nat) -> Seq<u8> {
    if held.len() + piece.len() <= cap {
        held + piece
    } else {
        held
    }
}

/// Decimal digits are ASCII, there is at least one, and a number below
/// `10^k` (for `k` of one to five) has at most `k` of them.
pub proof fn lemma_decimal_bytes(n: nat)
    ensures
        is_ascii_bytes(decimal_bytes(n)),
        1 <= decimal_bytes(n).len(),
        n < 10 ==> decimal_bytes(n).len() == 1,
        n < 100 ==> decimal_bytes(n).len() <= 2,
        n < 1000 ==> decimal_bytes(n).len() <= 3,
        n < 10000 ==> decimal_bytes(n).len() <= 4,
        n < 100000 ==> decimal_bytes(n).len() <= 5,
    decreases n,
{
    if n >= 10 {
        lemma_decimal_bytes(n / 10);
        let d = decimal_bytes(n);
        assert forall|i: int| 0 <= i < d.len() implies #[trigger] d[i] < 128 by {
            if i < d.len() - 1 {
                assert(d[i] == decimal_bytes(n / 10)[i]);
            }
        }
    }
}

/// The number that a sequence of ASCII decimal digits stands for, most
/// significant digit first.
pub open spec fn digits_value(d: Seq<u8>) -> int
    decreases d.len(),
{
    if d.len() == 0 {
        0
    } else {
        digits_value(d.drop_last()) * 10 + (d.last() - 48)
    }
}

/// `d` is how `n` is written in base 10: at least one digit, every byte an
/// ASCII digit `0` to `9`, no leading `0` unless `0` is the only digit, and
/// the digits stand for `n`.
pub open spec fn is_decimal_of(d: Seq<u8>, n: nat) -> bool {
    &&& 1 <= d.len()
    &&& forall|i: int| 0 <= i < d.len() ==> 48 <= #[trigger] d[i] <= 57
    &&& (d.len() > 1 ==> d[0] != 48u8)
    &&& digits_value(d) == n
}

/// `decimal_bytes(n)` is the base-10 representation of `n`.
pub proof fn lemma_decimal_bytes_value(n: nat)
    ensures
        is_decimal_of(decimal_bytes(n), n),
    decreases n,
{
    let d = decimal_bytes(n);
    if n < 10 {
        assert(d.drop_last().len() == 0);
        assert(digits_value(d.drop_last()) == 0);
    } else {
        let q = n / 10;
        let prefix = decimal_bytes(q);
        lemma_decimal_bytes_value(q);
        assert(d == prefix.push((48 + n % 10) as u8));
        assert(d.drop_last() == prefix);
        assert(digits_value(d) == q * 10 + n % 10);
        assert forall|i: int| 0 <= i < d.len() implies 48 <= #[trigger] d[i] <= 57 by {
            if i < prefix.len() {
                assert(d[i] == prefix[i]);
            }
        }
        assert(d[0] == prefix[0]);
        if prefix.len() == 1 {
            assert(prefix.drop_last().len() == 0);
            assert(digits_value(prefix.drop_last()) == 0);
            assert(digits_value(prefix) == prefix[0] - 48);
        }
    }
}

/// The decimal digits of `n` as ASCII bytes, as `{}` formats an integer.
pub fn decimal_digits(n: u16) -> (d: Vec<u8>)
    ensures
        d@ == decimal_bytes(n as nat),
        is_decimal_of(d@, n as nat),
    decreases n,
{
    proof {
        lemma_decimal_bytes_value(n as nat);
    }
    if n < 10 {
        let mut d: Vec<u8> = Vec::new();
        d.push(48 + n as u8);
        d
    } else {
        let mut d = decimal_digits(n / 10);
        d.push(48 + (n % 10) as u8);
        d
    }
}

/// Writes `piece` into a five-byte label the way one `write_str` does:
/// whole when it fits, not at all otherwise. Returns whether it was written.
pub fn write_piece5(buf: &mut heapless::String<5>, piece: &Vec<u8>) -> (ok: bool)
    requires
        is_ascii_bytes(piece@),
    ensures
        ok == (label5_bytes(*old(buf)).len() + piece@.len() <= 5),
        label5_bytes(*final(buf)) == label_append(label5_bytes(*old(buf)), piece@, 5),
{
    let held = label5_len(buf);
    if piece.len() > 5 - held {
        return false;
    }
    let ghost start = label5_bytes(*buf);
    let mut i: usize = 0;
    while i < piece.len()
        invariant
            i <= piece@.len(),
            is_ascii_bytes(piece@),
            start.len() + piece@.len() <= 5,
            label5_bytes(*buf) == start + piece@.take(i as int),
        decreases piece@.len() - i,
    {
        let _ = label5_push(buf, piece[i]);
        assert(piece@.take(i + 1) == piece@.take(i as int).push(piece@[i as int]));
        i = i + 1;
    }
    assert(piece@.take(i as int) == piece@);
    true
}

/// Writes `piece` into an eight-byte label the way one `write_str` does:
/// whole when it fits, not at all otherwise. Returns whether it was written.
pub fn write_piece8(buf: &mut heapless::String<8>, piece: &Vec<u8>) -> (ok: bool)
    requires
        is_ascii_bytes(piece@),
    ensures
        ok == (label8_bytes(*old(buf)).len() + piece@.len() <= 8),
        label8_bytes(*final(buf)) == label_append(label8_bytes(*old(buf)), piece@, 8),
{
    let held = label8_len(buf);
    if piece.len() > 8 - held {
        return false;
    }
    let ghost start = label8_bytes(*buf);
    let mut i: usize = 0;
    while i < piece.len()
        invariant
            i <= piece@.len(),
            is_ascii_bytes(piece@),
            start.len() + piece@.len() <= 8,
            label8_bytes(*buf) == start + piece@.take(i as int),
        decreases piece@.len() - i,
    {
        let _ = label8_push(buf, piece[i]);
        assert(piece@.take(i + 1) == piece@.take(i as int).push(piece@[i as int]));
        i = i + 1;
    }
    assert(piece@.take(i as int) == piece@);
    true
}

} // verus!

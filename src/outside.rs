use vstd::prelude::*;
use rand::seq::SliceRandom;
use crate::card::Card;

verus! {

/// The lower-case hex digit of a value below 16.
pub open spec fn hex_digit(d: u128) -> char {
    if d == 0u128 {
        '0'
    } else if d == 1u128 {
        '1'
    } else if d == 2u128 {
        '2'
    } else if d == 3u128 {
        '3'
    } else if d == 4u128 {
        '4'
    } else if d == 5u128 {
        '5'
    } else if d == 6u128 {
        '6'
    } else if d == 7u128 {
        '7'
    } else if d == 8u128 {
        '8'
    } else if d == 9u128 {
        '9'
    } else if d == 10u128 {
        'a'
    } else if d == 11u128 {
        'b'
    } else if d == 12u128 {
        'c'
    } else if d == 13u128 {
        'd'
    } else if d == 14u128 {
        'e'
    } else {
        'f'
    }
}

/// The value of a lower-case hex digit.
pub open spec fn hex_value(c: char) -> u128 {
    if c == '0' {
        0u128
    } else if c == '1' {
        1u128
    } else if c == '2' {
        2u128
    } else if c == '3' {
        3u128
    } else if c == '4' {
        4u128
    } else if c == '5' {
        5u128
    } else if c == '6' {
        6u128
    } else if c == '7' {
        7u128
    } else if c == '8' {
        8u128
    } else if c == '9' {
        9u128
    } else if c == 'a' {
        10u128
    } else if c == 'b' {
        11u128
    } else if c == 'c' {
        12u128
    } else if c == 'd' {
        13u128
    } else if c == 'e' {
        14u128
    } else {
        15u128
    }
}

proof fn lemma_hex_value(d: u128)
    requires
        d < 16,
    ensures
        hex_value(hex_digit(d)) == d,
{
    assert(d == 0 || d == 1 || d == 2 || d == 3 || d == 4 || d == 5 || d == 6 || d == 7 || d == 8 || d == 9
        || d == 10 || d == 11 || d == 12 || d == 13 || d == 14 || d == 15);
}

/// Digit `k` (0 first) of the 32 hex digits of `id`, most significant first.
pub open spec fn id_digit(id: u128, k: int) -> char {
    hex_digit((id >> ((124 - 4 * k) as u128)) & 15u128)
}

/// Which hex digit stands at position `i` of the hyphenated text (dashes at 8, 13, 18, 23).
pub open spec fn digit_at(i: int) -> int {
    if i < 8 {
        i
    } else if i < 13 {
        i - 1
    } else if i < 18 {
        i - 2
    } else if i < 23 {
        i - 3
    } else {
        i - 4
    }
}

/// The hyphenated lower-case text that `uuid::Uuid` prints for an id: its 32 hex digits, most
/// significant first, with a dash after the 8th, 12th, 16th and 20th.
pub open spec fn uuid_text(id: u128) -> Seq<char> {
    Seq::new(
        36,
        |i: int|
            if i == 8 || i == 13 || i == 18 || i == 23 {
                '-'
            } else {
                id_digit(id, digit_at(i))
            },
    )
}

/// Two ids with the same text are equal.
pub proof fn lemma_uuid_text_injective(a: u128, b: u128)
    requires
        uuid_text(a) == uuid_text(b),
    ensures
        a == b,
{
    assert forall|k: int| 0 <= k < 32 implies #[trigger] ((a >> ((124 - 4 * k) as u128)) & 15u128) == ((b >> ((124
        - 4 * k) as u128)) & 15u128) by {
        let i = if k < 8 {
            k
        } else if k < 12 {
            k + 1
        } else if k < 16 {
            k + 2
        } else if k < 20 {
            k + 3
        } else {
            k + 4
        };
        assert(digit_at(i) == k);
        assert(uuid_text(a)[i] == uuid_text(b)[i]);
        let sh = (124 - 4 * k) as u128;
        let va: u128 = a >> sh;
        let vb: u128 = b >> sh;
        assert(va & 15u128 < 16u128 && vb & 15u128 < 16u128) by (bit_vector);
        let x = va & 15u128;
        let y = vb & 15u128;
        assert(0 <= i < 36 && i != 8 && i != 13 && i != 18 && i != 23);
        assert(uuid_text(a)[i] == hex_digit(x));
        assert(uuid_text(b)[i] == hex_digit(y));
        lemma_hex_value(x);
        lemma_hex_value(y);
    }
    assert(((a >> ((124 - 4 * 0) as u128)) & 15u128) == ((b >> ((124 - 4 * 0) as u128)) & 15u128));
    assert(((a >> ((124 - 4 * 1) as u128)) & 15u128) == ((b >> ((124 - 4 * 1) as u128)) & 15u128));
    assert(((a >> ((124 - 4 * 2) as u128)) & 15u128) == ((b >> ((124 - 4 * 2) as u128)) & 15u128));
    assert(((a >> ((124 - 4 * 3) as u128)) & 15u128) == ((b >> ((124 - 4 * 3) as u128)) & 15u128));
    assert(((a >> ((124 - 4 * 4) as u128)) & 15u128) == ((b >> ((124 - 4 * 4) as u128)) & 15u128));
    assert(((a >> ((124 - 4 * 5) as u128)) & 15u128) == ((b >> ((124 - 4 * 5) as u128)) & 15u128));
    assert(((a >> ((124 - 4 * 6) as u128)) & 15u128) == ((b >> ((124 - 4 * 6) as u128)) & 15u128));
    assert(((a >> ((124 - 4 * 7) as u128)) & 15u128) == ((b >> ((124 - 4 * 7) as u128)) & 15u128));
    assert(((a >> ((124 - 4 * 8) as u128)) & 15u128) == ((b >> ((124 - 4 * 8) as u128)) & 15u128));
    assert(((a >> ((124 - 4 * 9) as u128)) & 15u128) == ((b >> ((124 - 4 * 9) as u128)) & 15u128));
    assert(((a >> ((124 - 4 * 10) as u128)) & 15u128) == ((b >> ((124 - 4 * 10) as u128)) & 15u128));
    assert(((a >> ((124 - 4 * 11) as u128)) & 15u128) == ((b >> ((124 - 4 * 11) as u128)) & 15u128));
    assert(((a >> ((124 - 4 * 12) as u128)) & 15u128) == ((b >> ((124 - 4 * 12) as u128)) & 15u128));
    assert(((a >> ((124 - 4 * 13) as u128)) & 15u128) == ((b >> ((124 - 4 * 13) as u128)) & 15u128));
    assert(((a >> ((124 - 4 * 14) as u128)) & 15u128) == ((b >> ((124 - 4 * 14) as u128)) & 15u128));
    assert(((a >> ((124 - 4 * 15) as u128)) & 15u128) == ((b >> ((124 - 4 * 15) as u128)) & 15u128));
    assert(((a >> ((124 - 4 * 16) as u128)) & 15u128) == ((b >> ((124 - 4 * 16) as u128)) & 15u128));
    assert(((a >> ((124 - 4 * 17) as u128)) & 15u128) == ((b >> ((124 - 4 * 17) as u128)) & 15u128));
    assert(((a >> ((124 - 4 * 18) as u128)) & 15u128) == ((b >> ((124 - 4 * 18) as u128)) & 15u128));
    assert(((a >> ((124 - 4 * 19) as u128)) & 15u128) == ((b >> ((124 - 4 * 19) as u128)) & 15u128));
    assert(((a >> ((124 - 4 * 20) as u128)) & 15u128) == ((b >> ((124 - 4 * 20) as u128)) & 15u128));
    assert(((a >> ((124 - 4 * 21) as u128)) & 15u128) == ((b >> ((124 - 4 * 21) as u128)) & 15u128));
    assert(((a >> ((124 - 4 * 22) as u128)) & 15u128) == ((b >> ((124 - 4 * 22) as u128)) & 15u128));
    assert(((a >> ((124 - 4 * 23) as u128)) & 15u128) == ((b >> ((124 - 4 * 23) as u128)) & 15u128));
    assert(((a >> ((124 - 4 * 24) as u128)) & 15u128) == ((b >> ((124 - 4 * 24) as u128)) & 15u128));
    assert(((a >> ((124 - 4 * 25) as u128)) & 15u128) == ((b >> ((124 - 4 * 25) as u128)) & 15u128));
    assert(((a >> ((124 - 4 * 26) as u128)) & 15u128) == ((b >> ((124 - 4 * 26) as u128)) & 15u128));
    assert(((a >> ((124 - 4 * 27) as u128)) & 15u128) == ((b >> ((124 - 4 * 27) as u128)) & 15u128));
    assert(((a >> ((124 - 4 * 28) as u128)) & 15u128) == ((b >> ((124 - 4 * 28) as u128)) & 15u128));
    assert(((a >> ((124 - 4 * 29) as u128)) & 15u128) == ((b >> ((124 - 4 * 29) as u128)) & 15u128));
    assert(((a >> ((124 - 4 * 30) as u128)) & 15u128) == ((b >> ((124 - 4 * 30) as u128)) & 15u128));
    assert(((a >> ((124 - 4 * 31) as u128)) & 15u128) == ((b >> ((124 - 4 * 31) as u128)) & 15u128));
    assert(a == b) by (bit_vector)
        requires
        (a >> 0u128) & 15u128 == (b >> 0u128) & 15u128,
        (a >> 4u128) & 15u128 == (b >> 4u128) & 15u128,
        (a >> 8u128) & 15u128 == (b >> 8u128) & 15u128,
        (a >> 12u128) & 15u128 == (b >> 12u128) & 15u128,
        (a >> 16u128) & 15u128 == (b >> 16u128) & 15u128,
        (a >> 20u128) & 15u128 == (b >> 20u128) & 15u128,
        (a >> 24u128) & 15u128 == (b >> 24u128) & 15u128,
        (a >> 28u128) & 15u128 == (b >> 28u128) & 15u128,
        (a >> 32u128) & 15u128 == (b >> 32u128) & 15u128,
        (a >> 36u128) & 15u128 == (b >> 36u128) & 15u128,
        (a >> 40u128) & 15u128 == (b >> 40u128) & 15u128,
        (a >> 44u128) & 15u128 == (b >> 44u128) & 15u128,
        (a >> 48u128) & 15u128 == (b >> 48u128) & 15u128,
        (a >> 52u128) & 15u128 == (b >> 52u128) & 15u128,
        (a >> 56u128) & 15u128 == (b >> 56u128) & 15u128,
        (a >> 60u128) & 15u128 == (b >> 60u128) & 15u128,
        (a >> 64u128) & 15u128 == (b >> 64u128) & 15u128,
        (a >> 68u128) & 15u128 == (b >> 68u128) & 15u128,
        (a >> 72u128) & 15u128 == (b >> 72u128) & 15u128,
        (a >> 76u128) & 15u128 == (b >> 76u128) & 15u128,
        (a >> 80u128) & 15u128 == (b >> 80u128) & 15u128,
        (a >> 84u128) & 15u128 == (b >> 84u128) & 15u128,
        (a >> 88u128) & 15u128 == (b >> 88u128) & 15u128,
        (a >> 92u128) & 15u128 == (b >> 92u128) & 15u128,
        (a >> 96u128) & 15u128 == (b >> 96u128) & 15u128,
        (a >> 100u128) & 15u128 == (b >> 100u128) & 15u128,
        (a >> 104u128) & 15u128 == (b >> 104u128) & 15u128,
        (a >> 108u128) & 15u128 == (b >> 108u128) & 15u128,
        (a >> 112u128) & 15u128 == (b >> 112u128) & 15u128,
        (a >> 116u128) & 15u128 == (b >> 116u128) & 15u128,
        (a >> 120u128) & 15u128 == (b >> 120u128) & 15u128,
        (a >> 124u128) & 15u128 == (b >> 124u128) & 15u128,
    ;
}

/// Relies on `uuid::Uuid::new_v4`: a random version-4 id, as its 128-bit value.
/// Nothing is promised of the value.
#[verifier::external_body]
pub(crate) fn fresh_id() -> (r: u128) {
    uuid::Uuid::new_v4().as_u128()
}

/// Relies on `Display` of `uuid::Uuid`, which prints the hyphenated lower-case form of the
/// big-endian bytes of the id.
#[verifier::external_body]
pub(crate) fn id_text(id: u128) -> (r: String)
    ensures
        r@ == uuid_text(id),
        r@.len() == 36,
{
    uuid::Uuid::from_u128(id).to_string()
}

/// Relies on `rand::seq::SliceRandom::shuffle` with the thread-local generator: the cards
/// are put in a random order, none added or lost.
#[verifier::external_body]
pub(crate) fn shuffle_cards(cards: &mut Vec<Card>)
    ensures
        final(cards)@.to_multiset() == old(cards)@.to_multiset(),
        final(cards)@.len() == old(cards)@.len(),
{
    let mut rng = rand::thread_rng();
    cards.shuffle(&mut rng);
}

} // verus!

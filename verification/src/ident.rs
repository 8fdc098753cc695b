//! Identifiers: 128-bit values with a canonical hyphenated text.

use vstd::prelude::*;

verus! {

/// The identifier of a task, a task kind or a worker.
#[derive(Clone, Copy, Debug, PartialEq, Eq, Hash, Structural)]
pub struct Id {
    /// The 128 bits of the identifier, most significant first in its text.
    pub value: u128,
}

/// The lower-case hexadecimal digit for a number below sixteen.
pub open spec fn hex_char(n: nat) -> char {
    "0123456789abcdef"@[n as int]
}

/// The lowest `count` hexadecimal digits of `value`, most significant first.
pub open spec fn hex_digits(value: nat, count: nat) -> Seq<char>
    decreases count,
{
    if count == 0 {
        Seq::empty()
    } else {
        hex_digits(value / 16, (count - 1) as nat).push(hex_char(value % 16))
    }
}

/// The canonical text of a 128-bit identifier: 32 lower-case hexadecimal
/// digits in groups of 8, 4, 4, 4 and 12, separated by hyphens.
pub open spec fn hyphenated(value: u128) -> Seq<char> {
    let digits = hex_digits(value as nat, 32);
    digits.subrange(0, 8) + seq!['-'] + digits.subrange(8, 12) + seq!['-'] + digits.subrange(
        12,
        16,
    ) + seq!['-'] + digits.subrange(16, 20) + seq!['-'] + digits.subrange(20, 32)
}

/// The bits that mark an identifier as randomly generated: version 4 in the
/// thirteenth hexadecimal digit, and the two highest bits of the seventeenth
/// set to one and zero.
pub open spec fn is_random_form(value: u128) -> bool {
    value & 0x0000_0000_0000_f000_c000_0000_0000_0000u128
        == 0x0000_0000_0000_4000_8000_0000_0000_0000u128
}

/// Calls `uuid::Uuid::new_v4` and hands out its 128 bits. The value is random;
/// all that is claimed is that it carries the version and variant bits that
/// the function sets on every value it returns.
#[verifier::external_body]
fn random_bits() -> (r: u128)
    ensures
        is_random_form(r),
{
    uuid::Uuid::new_v4().as_u128()
}

/// Calls `to_string` on the `uuid::Uuid` made of `value`: the hyphenated
/// lower-case form, whose digits are those of `value` from the most significant
/// down.
#[verifier::external_body]
fn hyphenated_text(value: u128) -> (r: String)
    ensures
        r@ == hyphenated(value),
{
    uuid::Uuid::from_u128(value).to_string()
}

impl Id {
    /// The identifier with the given bits.
    pub fn new(value: u128) -> (r: Id)
        ensures
            r.value == value,
    {
        Id { value }
    }

    /// A fresh random identifier.
    pub fn random() -> (r: Id)
        ensures
            is_random_form(r.value),
    {
        Id { value: random_bits() }
    }

    /// The canonical text of the identifier.
    pub open spec fn text(self) -> Seq<char> {
        hyphenated(self.value)
    }

    /// The canonical text of the identifier.
    pub fn to_string(&self) -> (r: String)
        ensures
            r@ == self.text(),
    {
        hyphenated_text(self.value)
    }
}

/// Sixteen to the power of `count`.
pub open spec fn sixteen_to(count: nat) -> nat
    decreases count,
{
    if count == 0 {
        1
    } else {
        16 * sixteen_to((count - 1) as nat)
    }
}

/// Distinct numbers below sixteen have distinct digits.
proof fn lemma_hex_char_injective(a: nat, b: nat)
    requires
        a < 16,
        b < 16,
        hex_char(a) == hex_char(b),
    ensures
        a == b,
{
    reveal_strlit("0123456789abcdef");
    let digits = "0123456789abcdef"@;
    assert(digits[0] == '0' && digits[1] == '1' && digits[2] == '2' && digits[3] == '3');
    assert(digits[4] == '4' && digits[5] == '5' && digits[6] == '6' && digits[7] == '7');
    assert(digits[8] == '8' && digits[9] == '9' && digits[10] == 'a' && digits[11] == 'b');
    assert(digits[12] == 'c' && digits[13] == 'd' && digits[14] == 'e' && digits[15] == 'f');
}

/// The digits of a number have the length that was asked for.
proof fn lemma_hex_digits_len(value: nat, count: nat)
    ensures
        hex_digits(value, count).len() == count,
    decreases count,
{
    if count > 0 {
        lemma_hex_digits_len(value / 16, (count - 1) as nat);
    }
}

/// Numbers with the same lowest digits agree modulo the power of sixteen that
/// the digits reach.
proof fn lemma_hex_digits_injective(a: nat, b: nat, count: nat)
    requires
        hex_digits(a, count) == hex_digits(b, count),
    ensures
        a % sixteen_to(count) == b % sixteen_to(count),
    decreases count,
{
    if count == 0 {
        assert(sixteen_to(0) == 1);
    } else {
        let shorter = (count - 1) as nat;
        let left = hex_digits(a / 16, shorter);
        let right = hex_digits(b / 16, shorter);
        lemma_hex_digits_len(a / 16, shorter);
        lemma_hex_digits_len(b / 16, shorter);
        assert(left == hex_digits(a, count).drop_last());
        assert(right == hex_digits(b, count).drop_last());
        assert(hex_char(a % 16) == hex_digits(a, count).last());
        assert(hex_char(b % 16) == hex_digits(b, count).last());
        lemma_hex_char_injective(a % 16, b % 16);
        lemma_hex_digits_injective(a / 16, b / 16, shorter);
        lemma_sixteen_to_positive(shorter);
        vstd::arithmetic::div_mod::lemma_breakdown(a as int, 16, sixteen_to(shorter) as int);
        vstd::arithmetic::div_mod::lemma_breakdown(b as int, 16, sixteen_to(shorter) as int);
        assert(sixteen_to(count) == 16 * sixteen_to(shorter));
    }
}

/// A power of sixteen is positive.
proof fn lemma_sixteen_to_positive(count: nat)
    ensures
        sixteen_to(count) > 0,
    decreases count,
{
    if count > 0 {
        lemma_sixteen_to_positive((count - 1) as nat);
    }
}

/// Sixteen to the thirty-second is the number of 128-bit values.
proof fn lemma_sixteen_to_32()
    ensures
        sixteen_to(32) == 0x1_0000_0000_0000_0000_0000_0000_0000_0000,
{
    assert(sixteen_to(0) == 1);
    assert(sixteen_to(1) == 0x10);
    assert(sixteen_to(2) == 0x100);
    assert(sixteen_to(3) == 0x1000);
    assert(sixteen_to(4) == 0x1_0000);
    assert(sixteen_to(5) == 0x10_0000);
    assert(sixteen_to(6) == 0x100_0000);
    assert(sixteen_to(7) == 0x1000_0000);
    assert(sixteen_to(8) == 0x1_0000_0000);
    assert(sixteen_to(9) == 0x10_0000_0000);
    assert(sixteen_to(10) == 0x100_0000_0000);
    assert(sixteen_to(11) == 0x1000_0000_0000);
    assert(sixteen_to(12) == 0x1_0000_0000_0000);
    assert(sixteen_to(13) == 0x10_0000_0000_0000);
    assert(sixteen_to(14) == 0x100_0000_0000_0000);
    assert(sixteen_to(15) == 0x1000_0000_0000_0000);
    assert(sixteen_to(16) == 0x1_0000_0000_0000_0000);
    assert(sixteen_to(17) == 0x10_0000_0000_0000_0000);
    assert(sixteen_to(18) == 0x100_0000_0000_0000_0000);
    assert(sixteen_to(19) == 0x1000_0000_0000_0000_0000);
    assert(sixteen_to(20) == 0x1_0000_0000_0000_0000_0000);
    assert(sixteen_to(21) == 0x10_0000_0000_0000_0000_0000);
    assert(sixteen_to(22) == 0x100_0000_0000_0000_0000_0000);
    assert(sixteen_to(23) == 0x1000_0000_0000_0000_0000_0000);
    assert(sixteen_to(24) == 0x1_0000_0000_0000_0000_0000_0000);
    assert(sixteen_to(25) == 0x10_0000_0000_0000_0000_0000_0000);
    assert(sixteen_to(26) == 0x100_0000_0000_0000_0000_0000_0000);
    assert(sixteen_to(27) == 0x1000_0000_0000_0000_0000_0000_0000);
    assert(sixteen_to(28) == 0x1_0000_0000_0000_0000_0000_0000_0000);
    assert(sixteen_to(29) == 0x10_0000_0000_0000_0000_0000_0000_0000);
    assert(sixteen_to(30) == 0x100_0000_0000_0000_0000_0000_0000_0000);
    assert(sixteen_to(31) == 0x1000_0000_0000_0000_0000_0000_0000_0000);
}

/// The text of an identifier has 36 characters, with hyphens after the
/// eighth, twelfth, sixteenth and twentieth digit.
pub proof fn lemma_text_shape(value: u128)
    ensures
        hyphenated(value).len() == 36,
        hyphenated(value)[8] == '-',
        hyphenated(value)[13] == '-',
        hyphenated(value)[18] == '-',
        hyphenated(value)[23] == '-',
{
    lemma_hex_digits_len(value as nat, 32);
}

/// Distinct identifiers have distinct texts.
pub proof fn lemma_text_injective(a: Id, b: Id)
    requires
        a.text() == b.text(),
    ensures
        a == b,
{
    let left = hex_digits(a.value as nat, 32);
    let right = hex_digits(b.value as nat, 32);
    lemma_hex_digits_len(a.value as nat, 32);
    lemma_hex_digits_len(b.value as nat, 32);
    let text_a = hyphenated(a.value);
    let text_b = hyphenated(b.value);
    assert forall|i: int| 0 <= i < 32 implies left[i] == right[i] by {
        let at = if i < 8 {
            i
        } else if i < 12 {
            i + 1
        } else if i < 16 {
            i + 2
        } else if i < 20 {
            i + 3
        } else {
            i + 4
        };
        assert(text_a[at] == left[i]);
        assert(text_b[at] == right[i]);
    }
    assert(left =~= right);
    lemma_hex_digits_injective(a.value as nat, b.value as nat, 32);
    lemma_sixteen_to_32();
    vstd::arithmetic::div_mod::lemma_small_mod(a.value as nat, sixteen_to(32));
    vstd::arithmetic::div_mod::lemma_small_mod(b.value as nat, sixteen_to(32));
}

} // verus!

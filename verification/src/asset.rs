//! Assets: their identifiers, and what an analysis says of one.

use vstd::prelude::*;

verus! {

/// The identifier of an asset: the 128 bits of its UUID.
#[derive(Debug, Clone, Copy, PartialEq, Eq, Structural)]
pub struct AssetId {
    pub bits: u128,
}

/// The description that an analysis gave of an asset.
#[derive(Debug, PartialEq, Eq)]
pub struct ImageAnalysisResult {
    pub description: String,
    pub asset_id: AssetId,
}

/// The digit for a number below sixteen.
pub open spec fn hex_digit(n: nat) -> char {
    if n < 10 {
        ('0' as u32 + n) as char
    } else {
        ('a' as u32 + n - 10) as char
    }
}

/// The last `width` digits of `n` to base sixteen, the highest first.
pub open spec fn hex_digits(n: nat, width: nat) -> Seq<char>
    decreases width,
{
    if width == 0 {
        Seq::empty()
    } else {
        hex_digits(n / 16, (width - 1) as nat).push(hex_digit(n % 16))
    }
}

/// A UUID in writing: its 32 digits in groups of 8, 4, 4, 4 and 12, with a hyphen
/// between each two.
pub open spec fn hyphenated(bits: u128) -> Seq<char> {
    let digits = hex_digits(bits as nat, 32);
    digits.subrange(0, 8) + seq!['-'] + digits.subrange(8, 12) + seq!['-'] + digits.subrange(12, 16)
        + seq!['-'] + digits.subrange(16, 20) + seq!['-'] + digits.subrange(20, 32)
}

impl AssetId {
    /// The identifier in writing.
    pub open spec fn text(self) -> Seq<char> {
        hyphenated(self.bits)
    }

    /// The identifier in writing.
    pub fn to_text(&self) -> (s: String)
        ensures
            s@ == self.text(),
    {
        uuid_text(self.bits)
    }
}

/// `uuid::Uuid::from_u128` and the `to_string` of what it gives: the 128 bits as
/// lower case hexadecimal digits in the five groups of a UUID.
#[verifier::external_body]
fn uuid_text(bits: u128) -> (s: String)
    ensures
        s@ == hyphenated(bits),
{
    uuid::Uuid::from_u128(bits).to_string()
}

proof fn lemma_hex_digit_injective(a: nat, b: nat)
    requires
        a < 16,
        b < 16,
        hex_digit(a) == hex_digit(b),
    ensures
        a == b,
{
}

/// `width` digits are `width` characters, each of `0` to `9` or `a` to `f`.
proof fn lemma_hex_digits_shape(n: nat, width: nat)
    ensures
        hex_digits(n, width).len() == width,
        forall|i: int|
            0 <= i < width ==> {
                let c = #[trigger] hex_digits(n, width)[i];
                ('0' <= c && c <= '9') || ('a' <= c && c <= 'f')
            },
    decreases width,
{
    if width > 0 {
        lemma_hex_digits_shape(n / 16, (width - 1) as nat);
    }
}

/// Sixteen to the power of `width`.
spec fn sixteen_to(width: nat) -> nat
    decreases width,
{
    if width == 0 {
        1
    } else {
        16 * sixteen_to((width - 1) as nat)
    }
}

proof fn lemma_hex_digits_injective(a: nat, b: nat, width: nat)
    requires
        a < sixteen_to(width),
        b < sixteen_to(width),
        hex_digits(a, width) == hex_digits(b, width),
    ensures
        a == b,
    decreases width,
{
    if width > 0 {
        let shorter = (width - 1) as nat;
        let x = hex_digits(a, width);
        let y = hex_digits(b, width);
        lemma_hex_digits_shape(a / 16, shorter);
        lemma_hex_digits_shape(b / 16, shorter);
        assert(x.last() == hex_digit(a % 16));
        assert(y.last() == hex_digit(b % 16));
        lemma_hex_digit_injective(a % 16, b % 16);
        assert(x.drop_last() == hex_digits(a / 16, shorter));
        assert(y.drop_last() == hex_digits(b / 16, shorter));
        lemma_hex_digits_injective(a / 16, b / 16, shorter);
    }
}

/// The text of an identifier has 36 characters: digits, letters from `a` to `f`
/// and hyphens.
pub proof fn law_asset_text_shape(id: AssetId)
    ensures
        id.text().len() == 36,
        forall|i: int|
            0 <= i < 36 ==> {
                let c = #[trigger] id.text()[i];
                ('0' <= c && c <= '9') || ('a' <= c && c <= 'f') || c == '-'
            },
{
    lemma_hex_digits_shape(id.bits as nat, 32);
}

/// Two assets with the same text are the same asset.
pub proof fn law_asset_text_identifies(a: AssetId, b: AssetId)
    requires
        a.text() == b.text(),
    ensures
        a == b,
{
    lemma_hex_digits_shape(a.bits as nat, 32);
    lemma_hex_digits_shape(b.bits as nat, 32);
    let x = hex_digits(a.bits as nat, 32);
    let y = hex_digits(b.bits as nat, 32);
    assert forall|i: int| 0 <= i < 32 implies x[i] == y[i] by {
        let place = if i < 8 {
            i
        } else if i < 12 {
            i + 1
        } else if i < 16 {
            i + 2
        } else if i < 20 {
            i + 3
        } else {
            i + 4
        };
        assert(a.text()[place] == x[i]);
        assert(b.text()[place] == y[i]);
    }
    assert(x == y);
    assert(sixteen_to(32) > u128::MAX) by {
        reveal_with_fuel(sixteen_to, 33);
    }
    lemma_hex_digits_injective(a.bits as nat, b.bits as nat, 32);
}

/// The asset whose identifier is written as `text`.
pub open spec fn asset_named(text: Seq<char>) -> AssetId {
    choose|id: AssetId| id.text() == text
}

/// The text of an identifier names its asset.
pub proof fn law_asset_named(id: AssetId)
    ensures
        asset_named(id.text()) == id,
{
    law_asset_text_identifies(asset_named(id.text()), id);
}

} // verus!

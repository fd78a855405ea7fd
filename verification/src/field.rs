//! Packing of small fixed-width fields into a 32-bit register word.
//!
//! A field is given by the offset of its lowest bit and by its width. The
//! specifications speak of a word as a number: the field's value is the
//! quotient by `2^offset`, taken modulo `2^width`.

use vstd::prelude::*;
use vstd::arithmetic::power2::pow2;
use vstd::arithmetic::power2::lemma_pow2_pos;
use vstd::arithmetic::power2::lemma_pow2_adds;
use vstd::arithmetic::power2::lemma2_to64;
use vstd::bits::low_bits_mask;
use vstd::bits::lemma_u32_shr_is_div;
use vstd::bits::lemma_u32_shl_is_mul;
use vstd::bits::lemma_u32_pow2_no_overflow;
use vstd::bits::lemma_u32_low_bits_mask_is_mod;

verus! {

/// Whether a field of `width` bits at `offset` lies inside a 32-bit word.
pub open spec fn field_in_word(offset: nat, width: nat) -> bool {
    1 <= width && offset + width <= 32
}

/// Whether `value` can be stored in `width` bits.
pub open spec fn field_fits(value: nat, width: nat) -> bool {
    value < pow2(width)
}

/// The value that `word` holds in the field.
pub open spec fn field_value(word: nat, offset: nat, width: nat) -> nat {
    (word / pow2(offset)) % pow2(width)
}

/// A field's value moved to the field's place in the word.
pub open spec fn field_at(value: nat, offset: nat) -> nat {
    value * pow2(offset)
}

/// `word` with the field's value replaced by `value`, all other bits kept.
pub open spec fn with_field(word: nat, offset: nat, width: nat, value: nat) -> int {
    word - field_at(field_value(word, offset, width), offset) + field_at(value, offset)
}

/// Whether two fields share no bit.
pub open spec fn fields_disjoint(offset_a: nat, width_a: nat, offset_b: nat, width_b: nat) -> bool {
    offset_a + width_a <= offset_b || offset_b + width_b <= offset_a
}

/// The largest value of a field of `width` bits: its low `width` bits set.
pub fn field_mask(width: u32) -> (mask: u32)
    requires
        1 <= width <= 32,
    ensures
        mask == pow2(width as nat) - 1,
        mask == 0xffff_ffffu32 >> ((32 - width) as u32),
{
    let unused: u32 = 32 - width;
    proof {
        lemma2_to64();
        lemma_u32_shr_is_div(u32::MAX, unused);
        lemma_pow2_adds(width as nat, unused as nat);
        lemma_pow2_pos(width as nat);
        lemma_pow2_pos(unused as nat);
        let a = pow2(width as nat) as int;
        let b = pow2(unused as nat) as int;
        assert((a * b - 1) / b == a - 1) by (nonlinear_arith)
            requires
                a >= 1,
                b >= 1,
        ;
    }
    u32::MAX >> unused
}

/// What the bit operations of `insert_field` compute, as sums and
/// differences of shifted values that do not overflow.
proof fn lemma_insert_bits(word: u32, offset: u32, width: u32, value: u32, mask: u32)
    by (bit_vector)
    requires
        1 <= width,
        offset + width <= 32,
        mask == 0xffff_ffffu32 >> ((32 - width) as u32),
        value <= mask,
    ensures
        ((word & !(mask << offset)) | (value << offset)) == word - (((word >> offset) & mask)
            << offset) + (value << offset),
        value <= 0xffff_ffffu32 >> offset,
        ((word >> offset) & mask) <= 0xffff_ffffu32 >> offset,
{
}

/// Reads the field out of `word`.
pub fn extract_field(word: u32, offset: u32, width: u32) -> (value: u32)
    requires
        field_in_word(offset as nat, width as nat),
    ensures
        value == field_value(word as nat, offset as nat, width as nat),
        field_fits(value as nat, width as nat),
        value == (word >> offset) & field_mask_of(width),
{
    let mask: u32 = field_mask(width);
    let shifted: u32 = word >> offset;
    proof {
        lemma_u32_shr_is_div(word, offset);
        lemma_pow2_pos(width as nat);
        if width == 32 {
            lemma2_to64();
            assert(shifted & 0xffff_ffffu32 == shifted) by (bit_vector);
        } else {
            lemma_u32_pow2_no_overflow(width as nat);
            lemma_u32_low_bits_mask_is_mod(shifted, width as nat);
            assert(low_bits_mask(width as nat) as u32 == mask);
        }
    }
    shifted & mask
}

/// The mask of a field of `width` bits, as the bit operations see it.
pub open spec fn field_mask_of(width: u32) -> u32 {
    0xffff_ffffu32 >> ((32 - width) as u32)
}

/// Writes `value` into the field of `word` and leaves the other bits as they
/// are. The value has to fit the field.
pub fn insert_field(word: u32, offset: u32, width: u32, value: u32) -> (updated: u32)
    requires
        field_in_word(offset as nat, width as nat),
        field_fits(value as nat, width as nat),
    ensures
        updated == with_field(word as nat, offset as nat, width as nat, value as nat),
{
    let mask: u32 = field_mask(width);
    let current: u32 = extract_field(word, offset, width);
    proof {
        lemma_insert_bits(word, offset, width, value, mask);
        vstd::bits::lemma_u32_mul_pow2_le_max_iff_max_shr(value, offset, u32::MAX);
        vstd::bits::lemma_u32_mul_pow2_le_max_iff_max_shr(current, offset, u32::MAX);
        lemma_u32_shl_is_mul(value, offset);
        lemma_u32_shl_is_mul(current, offset);
    }
    (word & !(mask << offset)) | (value << offset)
}

/// A field that lies above every set bit of `word` is empty, and writing
/// into it adds the placed value; the result stays below the field's end.
pub proof fn lemma_insert_above(word: nat, offset: nat, width: nat, value: nat)
    requires
        word < pow2(offset),
        field_fits(value, width),
    ensures
        field_value(word, offset, width) == 0,
        with_field(word, offset, width, value) == word + field_at(value, offset),
        word + field_at(value, offset) < pow2(offset + width),
{
    let p = pow2(offset) as int;
    let w = pow2(width) as int;
    let v = value as int;
    lemma_pow2_pos(offset);
    lemma_pow2_pos(width);
    lemma_pow2_adds(offset, width);
    vstd::arithmetic::div_mod::lemma_basic_div(word as int, p);
    vstd::arithmetic::div_mod::lemma_small_mod(0, w as nat);
    assert(0 * p == 0);
    assert(word + v * p < p * w) by (nonlinear_arith)
        requires
            0 <= v < w,
            0 <= word < p,
    ;
}

/// A word made of some bits below a field, the field's value, and some bits
/// above the field holds that value in the field.
pub proof fn lemma_field_among_others(low: nat, value: nat, high: nat, offset: nat, width: nat)
    requires
        low < pow2(offset),
        field_fits(value, width),
    ensures
        field_value(
            low + field_at(value, offset) + field_at(high, offset + width),
            offset,
            width,
        ) == value,
{
    let p = pow2(offset) as int;
    let w = pow2(width) as int;
    let v = value as int;
    let h = high as int;
    let word = (low + field_at(value, offset) + field_at(high, offset + width)) as int;
    lemma_pow2_pos(offset);
    lemma_pow2_pos(width);
    lemma_pow2_adds(offset, width);
    assert(word == p * (w * h + v) + low) by (nonlinear_arith)
        requires
            word == low + v * p + h * (p * w),
    ;
    vstd::arithmetic::div_mod::lemma_div_multiples_vanish_fancy(w * h + v, low as int, p);
    vstd::arithmetic::div_mod::lemma_mod_multiples_vanish(h, v, w);
    vstd::arithmetic::div_mod::lemma_small_mod(value, w as nat);
}

/// A word is the sum of the bits below a field, the field's value at its
/// place, and the bits above the field at theirs.
pub proof fn lemma_word_parts(word: nat, offset: nat, width: nat)
    ensures
        word == word % pow2(offset) + field_at(field_value(word, offset, width), offset) + field_at(
            (word / pow2(offset)) / pow2(width),
            offset + width,
        ),
        word % pow2(offset) < pow2(offset),
        field_fits(field_value(word, offset, width), width),
{
    let p = pow2(offset) as int;
    let w = pow2(width) as int;
    let q = word as int / p;
    lemma_pow2_pos(offset);
    lemma_pow2_pos(width);
    lemma_pow2_adds(offset, width);
    vstd::arithmetic::div_mod::lemma_fundamental_div_mod(word as int, p);
    vstd::arithmetic::div_mod::lemma_fundamental_div_mod(q, w);
    vstd::arithmetic::div_mod::lemma_mod_bound(word as int, p);
    vstd::arithmetic::div_mod::lemma_mod_bound(q, w);
    vstd::arithmetic::div_mod::lemma_div_pos_is_pos(word as int, p);
    vstd::arithmetic::div_mod::lemma_div_pos_is_pos(q, w);
    let f = q % w;
    let h = q / w;
    assert(word == word as int % p + f * p + h * (p * w)) by (nonlinear_arith)
        requires
            word == p * q + word as int % p,
            q == w * h + f,
    ;
}

/// The word that `with_field` describes, in the parts of `lemma_word_parts`.
proof fn lemma_with_field_parts(word: nat, offset: nat, width: nat, value: nat)
    ensures
        with_field(word, offset, width, value) == word % pow2(offset) + field_at(value, offset)
            + field_at((word / pow2(offset)) / pow2(width), offset + width),
{
    lemma_word_parts(word, offset, width);
    lemma_parts_not_negative(word, offset, width);
}

/// The bits below a field and the bits above it are numbers that are not
/// negative.
proof fn lemma_parts_not_negative(word: nat, offset: nat, width: nat)
    ensures
        0 <= word as int % pow2(offset) as int,
        0 <= (word as int / pow2(offset) as int) / pow2(width) as int,
        0 <= word as int / pow2(offset) as int,
{
    lemma_pow2_pos(offset);
    lemma_pow2_pos(width);
    vstd::arithmetic::div_mod::lemma_mod_bound(word as int, pow2(offset) as int);
    vstd::arithmetic::div_mod::lemma_div_pos_is_pos(word as int, pow2(offset) as int);
    vstd::arithmetic::div_mod::lemma_div_pos_is_pos(
        word as int / pow2(offset) as int,
        pow2(width) as int,
    );
}

/// A field that was written holds the value that was written.
pub proof fn lemma_insert_then_extract(word: nat, offset: nat, width: nat, value: nat)
    requires
        field_fits(value, width),
    ensures
        with_field(word, offset, width, value) >= 0,
        field_value(with_field(word, offset, width, value) as nat, offset, width) == value,
{
    lemma_word_parts(word, offset, width);
    lemma_with_field_parts(word, offset, width, value);
    lemma_field_among_others(
        word % pow2(offset),
        value,
        (word / pow2(offset)) / pow2(width),
        offset,
        width,
    );
}

/// A field below `offset` is read from the bits below `offset` alone.
proof fn lemma_field_of_low_bits(word: nat, offset: nat, low_offset: nat, low_width: nat)
    requires
        low_offset + low_width <= offset,
    ensures
        field_value(word, low_offset, low_width) == field_value(
            word % pow2(offset),
            low_offset,
            low_width,
        ),
{
    let p = pow2(offset) as int;
    let unit = pow2(low_offset) as int;
    let span = pow2(low_width) as int;
    let k = pow2((offset - low_offset - low_width) as nat) as int;
    let r = word % pow2(offset);
    let a = word as int / p;
    lemma_pow2_pos(offset);
    lemma_pow2_pos(low_offset);
    lemma_pow2_pos(low_width);
    lemma_pow2_pos((offset - low_offset - low_width) as nat);
    lemma_pow2_adds(low_offset, low_width);
    lemma_pow2_adds(low_offset + low_width, (offset - low_offset - low_width) as nat);
    vstd::arithmetic::div_mod::lemma_fundamental_div_mod(word as int, p);
    vstd::arithmetic::div_mod::lemma_div_pos_is_pos(word as int, p);
    lemma_word_parts(r, low_offset, low_width);
    let low = r % pow2(low_offset);
    let found = field_value(r, low_offset, low_width);
    let high = (r / pow2(low_offset)) / pow2(low_width);
    let above = (high + a * k) as nat;
    assert(word == low + found * unit + above * (unit * span)) by (nonlinear_arith)
        requires
            word == p * a + r,
            r == low + found * unit + high * (unit * span),
            p == (unit * span) * k,
            above == high + a * k,
    ;
    lemma_field_among_others(low, found, above, low_offset, low_width);
}

/// A field at or above the end of another is read from the bits above that
/// end alone.
proof fn lemma_field_of_high_bits(word: nat, end: nat, high_offset: nat, high_width: nat)
    requires
        end <= high_offset,
    ensures
        field_value(word, high_offset, high_width) == field_value(
            word / pow2(end),
            (high_offset - end) as nat,
            high_width,
        ),
{
    lemma_pow2_pos(end);
    lemma_pow2_pos((high_offset - end) as nat);
    lemma_pow2_adds(end, (high_offset - end) as nat);
    vstd::arithmetic::div_mod::lemma_div_denominator(
        word as int,
        pow2(end) as int,
        pow2((high_offset - end) as nat) as int,
    );
}

/// Writing a field leaves every field that shares no bit with it as it was.
pub proof fn lemma_insert_keeps_other_fields(
    word: nat,
    offset: nat,
    width: nat,
    value: nat,
    other_offset: nat,
    other_width: nat,
)
    requires
        field_fits(value, width),
        fields_disjoint(offset, width, other_offset, other_width),
    ensures
        with_field(word, offset, width, value) >= 0,
        field_value(with_field(word, offset, width, value) as nat, other_offset, other_width)
            == field_value(word, other_offset, other_width),
{
    let p = pow2(offset) as int;
    let w = pow2(width) as int;
    let low = word % pow2(offset);
    let high = (word / pow2(offset)) / pow2(width);
    let found = field_value(word, offset, width);
    lemma_pow2_pos(offset);
    lemma_pow2_pos(width);
    lemma_pow2_adds(offset, width);
    lemma_word_parts(word, offset, width);
    lemma_with_field_parts(word, offset, width, value);
    let updated = with_field(word, offset, width, value) as nat;
    if other_offset + other_width <= offset {
        assert(updated == p * (w * high + value) + low) by (nonlinear_arith)
            requires
                updated == low + value * p + high * (p * w),
        ;
        vstd::arithmetic::div_mod::lemma_fundamental_div_mod_converse(
            updated as int,
            p,
            w * high + value,
            low as int,
        );
        lemma_field_of_low_bits(word, offset, other_offset, other_width);
        lemma_field_of_low_bits(updated, offset, other_offset, other_width);
    } else {
        let pw = p * w;
        assert(0 < pw) by (nonlinear_arith)
            requires
                0 < p,
                0 < w,
                pw == p * w,
        ;
        assert(0 <= low + value * p < pw && 0 <= low + found * p < pw) by (nonlinear_arith)
            requires
                0 <= low < p,
                0 <= value < w,
                0 <= found < w,
                pw == p * w,
        ;
        vstd::arithmetic::div_mod::lemma_fundamental_div_mod_converse(
            updated as int,
            pw,
            high as int,
            low + value * p,
        );
        vstd::arithmetic::div_mod::lemma_fundamental_div_mod_converse(
            word as int,
            pw,
            high as int,
            low + found * p,
        );
        lemma_field_of_high_bits(word, offset + width, other_offset, other_width);
        lemma_field_of_high_bits(updated, offset + width, other_offset, other_width);
    }
}

} // verus!

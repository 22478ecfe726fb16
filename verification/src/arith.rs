//! Arithmetic entry points exported across the module boundary.
//!
//! Each operation is total on the inputs its `requires` admits; inputs on
//! which the underlying machine operation would overflow or trap are ruled
//! out by the contract rather than handled at run time.

use vstd::prelude::*;
use vstd::math::abs;
use vstd::arithmetic::div_mod::{
    lemma_div_is_ordered_by_denominator,
    lemma_div_nonincreasing,
    lemma_div_pos_is_pos,
};
use vstd::arithmetic::mul::{
    lemma_mul_inequality,
    lemma_mul_is_commutative,
    lemma_mul_is_distributive_add,
};
use vstd::string::{StringSliceAdditionalSpecFns, StrSliceExecFns};

verus! {

/// Sum of two signed machine integers.
pub fn add(a: i32, b: i32) -> (r: i32)
    requires
        i32::MIN <= a + b <= i32::MAX,
    ensures
        r == a + b,
{
    a + b
}

/// Product of two unsigned machine integers.
pub fn mul(a: u32, b: u32) -> (r: u32)
    requires
        a * b <= u32::MAX,
    ensures
        r == a * b,
{
    a * b
}

/// Product of two unsigned 64-bit integers.
pub fn mul_longs(a: u64, b: u64) -> (r: u64)
    requires
        a * b <= u64::MAX,
    ensures
        r == a * b,
{
    a * b
}

/// Quotient of `a` and `b` rounded toward zero, as machine division gives it.
pub open spec fn div_trunc(a: int, b: int) -> int {
    let m = (abs(a) / abs(b)) as int;
    if (a < 0) == (b < 0) {
        m
    } else {
        -m
    }
}

/// Signed integer division, truncating toward zero.
pub fn div(a: i32, b: i32) -> (r: i32)
    requires
        b != 0,
        !(a == i32::MIN && b == -1),
    ensures
        r == div_trunc(a as int, b as int),
{
    let wide_a: i64 = a as i64;
    let wide_b: i64 = b as i64;
    let mag_a: i64 = if wide_a < 0 {
        -wide_a
    } else {
        wide_a
    };
    let mag_b: i64 = if wide_b < 0 {
        -wide_b
    } else {
        wide_b
    };
    let q: i64 = mag_a / mag_b;
    proof {
        lemma_div_nonincreasing(mag_a as int, mag_b as int);
        lemma_div_pos_is_pos(mag_a as int, mag_b as int);
        if mag_a > i32::MAX as int && (a < 0) == (b < 0) {
            // only a == i32::MIN exceeds the positive range, and then b <= -2
            lemma_div_is_ordered_by_denominator(mag_a as int, 2, mag_b as int);
        }
    }
    if (a < 0) == (b < 0) {
        q as i32
    } else {
        (-q) as i32
    }
}

/// Unsigned integer division.
pub fn div_u(a: u64, b: u64) -> (r: u64)
    requires
        b != 0,
    ensures
        r == a / b,
{
    a / b
}

/// What `mem_stuff` computes: counting up from zero to `arg`, every even
/// step adds 10 to one accumulator and every odd step adds 10 to another,
/// and the result weighs the odd accumulator twice.
pub open spec fn mem_stuff_value(arg: int) -> int {
    if arg <= 0 {
        0
    } else {
        10 * ((arg + 1) / 2) + 20 * (arg / 2)
    }
}

/// Walks two accumulators through `arg` alternating steps and combines them.
pub fn mem_stuff(arg: i32) -> (r: i32)
    requires
        mem_stuff_value(arg as int) <= i32::MAX,
    ensures
        r == mem_stuff_value(arg as int),
{
    let mut a: i32 = 0;
    let mut b: i32 = 0;

    let mut x: i32 = 0;
    while x < arg
        invariant
            0 <= x,
            x <= arg || arg <= 0,
            arg <= 0 ==> x == 0,
            0 <= a,
            0 <= b,
            a == 10 * ((x + 1) / 2),
            b == 10 * (x / 2),
            mem_stuff_value(arg as int) <= i32::MAX,
        decreases arg - x,
    {
        if x % 2 == 0 {
            assert(a + 10 == 10 * ((x + 2) / 2) <= mem_stuff_value(arg as int));
            a += 10;
        } else {
            assert(b + 10 == 10 * ((x + 1) / 2) <= mem_stuff_value(arg as int));
            b += 10;
        }
        x += 1;
    }
    assert(a + b * 2 == mem_stuff_value(arg as int));
    a + b * 2
}

/// Sum of a sequence of bytes.
pub open spec fn byte_sum(s: Seq<u8>) -> int
    decreases s.len(),
{
    if s.len() == 0 {
        0
    } else {
        byte_sum(s.drop_last()) + s.last()
    }
}

/// The fixed text block whose bytes `assemble_longs` folds together.
pub const TEXT: &'static str = "Lorem ipsum dolor sit amet, consectetur adipiscing elit. Sed condimentum nec sem ac malesuada. Proin tincidunt lacus eget massa tincidunt, ac interdum turpis porttitor. Proin quis pretium elit. Maecenas vel enim non libero posuere rutrum. Pellentesque ac fringilla sapien. Cras et interdum odio. Mauris rutrum viverra ipsum, a vulputate nibh lobortis non. Suspendisse vel risus vel risus feugiat tempor. Maecenas blandit, tortor nec facilisis venenatis, eros mi ullamcorper mauris, at lacinia nisi dui in dui. Nulla sit amet elit ante. Suspendisse sed ex felis. Lorem ipsum dolor sit amet, consectetur adipiscing elit. Vestibulum consequat, nisl non ultrices aliquet, dui odio dignissim nibh, tincidunt ultrices dui mi quis urna. Maecenas tempor accumsan finibus. Etiam laoreet tortor et elit finibus, ut fringilla tellus convallis. Curabitur dignissim tellus eu ligula scelerisque, sed vulputate arcu pulvinar.";

/// The byte sum of the fixed text block.
pub open spec fn text_byte_sum() -> int {
    byte_sum(TEXT.spec_bytes())
}

proof fn lemma_byte_sum_step(s: Seq<u8>, i: int)
    requires
        0 <= i < s.len(),
    ensures
        byte_sum(s.take(i + 1)) == byte_sum(s.take(i)) + s[i],
{
    assert(s.take(i + 1).drop_last() =~= s.take(i));
    assert(s.take(i + 1).last() == s[i]);
}

proof fn lemma_byte_sum_nonneg(s: Seq<u8>)
    ensures
        0 <= byte_sum(s),
    decreases s.len(),
{
    if s.len() > 0 {
        lemma_byte_sum_nonneg(s.drop_last());
    }
}

proof fn lemma_byte_sum_take_le(s: Seq<u8>, i: int)
    requires
        0 <= i <= s.len(),
    ensures
        byte_sum(s.take(i)) <= byte_sum(s),
    decreases s.len() - i,
{
    if i == s.len() {
        assert(s.take(i) =~= s);
    } else {
        lemma_byte_sum_step(s, i);
        lemma_byte_sum_take_le(s, i + 1);
    }
}

/// Folds the text block's bytes with the factor `f`: the sum of `b * f`
/// over every byte `b` of the text, which equals `f` times the text's
/// byte sum.
pub fn assemble_longs(f: u64) -> (r: u64)
    requires
        f * text_byte_sum() <= u64::MAX,
    ensures
        r == f * text_byte_sum(),
{
    let bytes: Vec<u8> = TEXT.as_bytes_vec();
    let mut sum: u64 = 0;
    let mut i: usize = 0;
    while i < bytes.len()
        invariant
            0 <= i <= bytes.len(),
            bytes@ == TEXT.spec_bytes(),
            sum == f * byte_sum(bytes@.take(i as int)),
            f * text_byte_sum() <= u64::MAX,
        decreases bytes.len() - i,
    {
        let b = bytes[i];
        proof {
            lemma_byte_sum_step(bytes@, i as int);
            lemma_byte_sum_take_le(bytes@, i as int + 1);
            lemma_byte_sum_nonneg(bytes@.take(i as int));
            let part = byte_sum(bytes@.take(i as int));
            let next = byte_sum(bytes@.take(i as int + 1));
            lemma_mul_inequality(next, text_byte_sum(), f as int);
            lemma_mul_is_distributive_add(f as int, part, b as int);
            lemma_mul_is_commutative(f as int, text_byte_sum());
            lemma_mul_is_commutative(f as int, next);
            assert(0 <= f * (b as int)) by (nonlinear_arith);
            assert(0 <= f * part) by (nonlinear_arith)
                requires 0 <= part;
        }
        sum = sum + b as u64 * f;
        i += 1;
    }
    proof {
        assert(bytes@.take(bytes@.len() as int) =~= bytes@);
    }
    sum
}

} // verus!

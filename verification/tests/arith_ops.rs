use wasm_interop::arith::{add, assemble_longs, div, div_u, mem_stuff, mul, mul_longs, TEXT};

#[test]
fn add_and_mul() {
    assert_eq!(add(2, 3), 5);
    assert_eq!(add(-2, 3), 1);
    assert_eq!(add(i32::MAX, 0), i32::MAX);
    assert_eq!(mul(6, 7), 42);
    assert_eq!(mul(0, u32::MAX), 0);
    assert_eq!(mul_longs(1 << 31, 2), 1 << 32);
}

#[test]
fn div_truncates_toward_zero() {
    assert_eq!(div(7, 2), 3);
    assert_eq!(div(-7, 2), -3);
    assert_eq!(div(7, -2), -3);
    assert_eq!(div(-7, -2), 3);
    assert_eq!(div(i32::MIN, 1), i32::MIN);
    assert_eq!(div(i32::MIN, 2), -1073741824);
    assert_eq!(div_u(7, 2), 3);
    assert_eq!(div_u(u64::MAX, 1), u64::MAX);
}

#[test]
fn mem_stuff_alternates_accumulators() {
    assert_eq!(mem_stuff(0), 0);
    assert_eq!(mem_stuff(-3), 0);
    assert_eq!(mem_stuff(1), 10);
    assert_eq!(mem_stuff(2), 30);
    assert_eq!(mem_stuff(5), 70);
    assert_eq!(mem_stuff(10), 150);
}

#[test]
fn assemble_longs_scales_the_text_byte_sum() {
    let expected: u64 = TEXT.bytes().map(|b| b as u64).sum();
    assert_eq!(expected, 86271);
    assert_eq!(assemble_longs(0), 0);
    assert_eq!(assemble_longs(1), expected);
    assert_eq!(assemble_longs(2), 2 * expected);
    assert_eq!(assemble_longs(1000), 1000 * expected);
}

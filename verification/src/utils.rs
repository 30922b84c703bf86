//! Sizes in words, and the helpers of the archive under one roof.

pub use crate::archive::{
    compress_data, decompress_data, extract_tar_archive, is_gzip_file, validate_file_path,
};
pub use crate::checksum::{calculate_directory_checksum, calculate_file_checksum};
pub use crate::layer::create_tar_archive;

use vstd::prelude::*;
use vstd::arithmetic::div_mod::{lemma_div_nonincreasing, lemma_fundamental_div_mod};
use crate::checksum::{hex_digit, nibble_text};

verus! {

/// `n` divided by `d`, rounded to the nearest whole number, a half to the
/// even neighbour.
pub open spec fn round_half_even(n: int, d: int) -> int {
    let q = n / d;
    let r = n % d;
    if 2 * r > d || (2 * r == d && q % 2 == 1) {
        q + 1
    } else {
        q
    }
}

/// The distance between two neighbours among the numbers that a double
/// holds, at the height of `size`: up to 2^53 every whole number is one.
pub open spec fn float_step(size: int) -> int {
    if size < 0x20_0000_0000_0000 {
        1
    } else if size < 0x40_0000_0000_0000 {
        2
    } else if size < 0x80_0000_0000_0000 {
        4
    } else if size < 0x100_0000_0000_0000 {
        8
    } else if size < 0x200_0000_0000_0000 {
        16
    } else if size < 0x400_0000_0000_0000 {
        32
    } else if size < 0x800_0000_0000_0000 {
        64
    } else if size < 0x1000_0000_0000_0000 {
        128
    } else if size < 0x2000_0000_0000_0000 {
        256
    } else if size < 0x4000_0000_0000_0000 {
        512
    } else if size < 0x8000_0000_0000_0000 {
        1024
    } else {
        2048
    }
}

/// The number that a double holds for `size`: the nearest that it can hold.
pub open spec fn as_double(size: int) -> int {
    round_half_even(size, float_step(size)) * float_step(size)
}

/// By how much a size is divided for its unit: by 1024 as often as it stays
/// at 1024 or above, four times at most.
pub open spec fn unit_scale(f: int) -> int {
    if f < 0x400 {
        1
    } else if f < 0x10_0000 {
        0x400
    } else if f < 0x4000_0000 {
        0x10_0000
    } else if f < 0x100_0000_0000 {
        0x4000_0000
    } else {
        0x100_0000_0000
    }
}

/// The name of the unit that goes with a scale.
pub open spec fn unit_name(scale: int) -> Seq<char> {
    if scale == 1 {
        "B"@
    } else if scale == 0x400 {
        "KB"@
    } else if scale == 0x10_0000 {
        "MB"@
    } else if scale == 0x4000_0000 {
        "GB"@
    } else {
        "TB"@
    }
}

/// A natural number in decimal digits.
pub open spec fn decimal_text(n: nat) -> Seq<char>
    decreases n,
{
    if n < 10 {
        seq![hex_digit(n as int)]
    } else {
        decimal_text(n / 10).push(hex_digit((n % 10) as int))
    }
}

/// A size in bytes in words: below 1024 the whole number and `B`; from there
/// on the size as a double, in the largest unit up to `TB` in which it is at
/// least one, rounded to two decimals, a half to the even neighbour.
pub open spec fn size_text(size: int) -> Seq<char> {
    let f = as_double(size);
    let scale = unit_scale(f);
    if scale == 1 {
        decimal_text(size as nat) + " "@ + unit_name(1)
    } else {
        let h = round_half_even(f * 100, scale);
        decimal_text((h / 100) as nat) + "."@ + seq![
            hex_digit(h % 100 / 10),
            hex_digit(h % 10),
        ] + " "@ + unit_name(scale)
    }
}

/// `n` divided by `d`, rounded to the nearest whole number, a half to the
/// even neighbour.
pub(crate) fn rounded_ratio(n: u128, d: u128) -> (r: u128)
    requires
        0 < d <= 0x100_0000_0000,
        n < 0x1_0000_0000_0000_0000_0000,
    ensures
        r == round_half_even(n as int, d as int),
        r <= n / d + 1,
{
    let q = n / d;
    let r = n % d;
    proof {
        lemma_div_nonincreasing(n as int, d as int);
    }
    if 2 * r > d || (2 * r == d && q % 2 == 1) {
        q + 1
    } else {
        q
    }
}

/// The number that a double holds for `size`.
pub fn to_double(size: u64) -> (f: u128)
    ensures
        f == as_double(size as int),
        f <= 0x1_0000_0000_0000_0000,
        size < 0x400 ==> f == size,
        size >= 0x400 ==> f >= 0x400,
{
    let step: u128 = if size < 0x20_0000_0000_0000 {
        1
    } else if size < 0x40_0000_0000_0000 {
        2
    } else if size < 0x80_0000_0000_0000 {
        4
    } else if size < 0x100_0000_0000_0000 {
        8
    } else if size < 0x200_0000_0000_0000 {
        16
    } else if size < 0x400_0000_0000_0000 {
        32
    } else if size < 0x800_0000_0000_0000 {
        64
    } else if size < 0x1000_0000_0000_0000 {
        128
    } else if size < 0x2000_0000_0000_0000 {
        256
    } else if size < 0x4000_0000_0000_0000 {
        512
    } else if size < 0x8000_0000_0000_0000 {
        1024
    } else {
        2048
    };
    let q = rounded_ratio(size as u128, step);
    proof {
        let s = size as int;
        let d = step as int;
        lemma_fundamental_div_mod(s, d);
        assert(d * (s / d) <= s) by (nonlinear_arith)
            requires
                s == d * (s / d) + (s % d),
                0 <= s % d,
        ;
        assert(q * d <= d * (s / d) + d) by (nonlinear_arith)
            requires
                q <= s / d + 1,
                d > 0,
        ;
        assert(q * d >= d * (s / d)) by (nonlinear_arith)
            requires
                q >= s / d,
                d > 0,
        ;
        assert(s % d < d);
    }
    q * step
}

/// A natural number in decimal digits.
pub fn decimal(n: u128) -> (r: String)
    ensures
        r@ == decimal_text(n as nat),
    decreases n,
{
    if n < 10 {
        nibble_text(n as u8).to_owned()
    } else {
        let front = decimal(n / 10);
        let last = nibble_text((n % 10) as u8);
        let r = front.concat(last);
        assert(r@ =~= decimal_text((n / 10) as nat).push(hex_digit((n % 10) as int)));
        r
    }
}

/// Format file size in human readable format.
pub fn format_file_size(size: u64) -> (r: String)
    ensures
        r@ == size_text(size as int),
{
    let f = to_double(size);
    if f < 0x400 {
        return decimal(size as u128).concat(" ").concat("B");
    }
    let (scale, unit): (u128, &str) = if f < 0x10_0000 {
        (0x400, "KB")
    } else if f < 0x4000_0000 {
        (0x10_0000, "MB")
    } else if f < 0x100_0000_0000 {
        (0x4000_0000, "GB")
    } else {
        (0x100_0000_0000, "TB")
    };
    let h = rounded_ratio(f * 100, scale);
    let whole = decimal(h / 100);
    let tenths = nibble_text((h % 100 / 10) as u8);
    let hundredths = nibble_text((h % 10) as u8);
    let r = whole.concat(".").concat(tenths).concat(hundredths).concat(" ").concat(unit);
    assert(r@ =~= size_text(size as int));
    r
}

} // verus!

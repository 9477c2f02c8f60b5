//! What numbers, texts and paths look like in bytes.

use crate::bytes::{decimal_digits, le_bytes, le_limit, le_value, lemma_le_bytes_len, zeros};
use crate::digest::hex;
use crate::path::{extension_of, joined, last_dot, stem_of};
use crate::random_seed::{seed_table, SeedTime};
use crate::ucs2::{all_ascii, ascii_text, is_ucs2, not_after, path_in, ucs2, unit_bytes};
use vstd::arithmetic::div_mod::lemma_div_denominator;
use vstd::arithmetic::power::{lemma_pow_positive, pow};
use vstd::prelude::*;

verus! {

/// The bytes of a number are its digits to the base 256, the one for the
/// units first.
pub proof fn law_bytes_are_digits(n: nat, width: nat, i: nat)
    requires
        i < width,
    ensures
        le_bytes(n, width).len() == width,
        le_bytes(n, width)[i as int] == (n as int / pow(256, i)) % 256,
    decreases i,
{
    reveal(pow);
    lemma_le_bytes_len(n, width);
    if i > 0 {
        let j = (i - 1) as nat;
        law_bytes_are_digits(n / 256, (width - 1) as nat, j);
        lemma_pow_positive(256, j);
        lemma_div_denominator(n as int, 256, pow(256, j));
        assert(pow(256, i) == 256 * pow(256, j));
    }
}

/// Bytes are the digits of the number that is read from them, and different
/// bytes of one length stand for different numbers.
pub proof fn law_numbers_are_read_whole(bytes: Seq<u8>)
    ensures
        le_bytes(le_value(bytes), bytes.len()) == bytes,
        le_value(bytes) < le_limit(bytes.len()),
    decreases bytes.len(),
{
    if bytes.len() > 0 {
        let rest = bytes.drop_first();
        law_numbers_are_read_whole(rest);
        let n = le_value(bytes);
        assert(n == bytes[0] as nat + 256 * le_value(rest));
        assert(n % 256 == bytes[0] as nat);
        assert(n / 256 == le_value(rest));
        assert(le_bytes(n, bytes.len()) =~= bytes);
    } else {
        assert(le_bytes(le_value(bytes), 0) =~= bytes);
    }
}

/// The number that decimal digits stand for.
pub open spec fn decimal_value(digits: Seq<u8>) -> int
    decreases digits.len(),
{
    if digits.len() == 0 {
        0
    } else {
        10 * decimal_value(digits.drop_last()) + (digits.last() - 48)
    }
}

/// The decimal digits of a number stand for it, and there is no leading zero.
pub proof fn law_decimal_digits_stand_for_the_number(n: nat)
    ensures
        decimal_value(decimal_digits(n)) == n,
        decimal_digits(n).len() > 0,
        decimal_digits(n)[0] == 48 ==> n == 0,
        forall|i: int|
            0 <= i < decimal_digits(n).len() ==> 48 <= #[trigger] decimal_digits(n)[i] <= 57,
    decreases n,
{
    let digits = decimal_digits(n);
    if n >= 10 {
        law_decimal_digits_stand_for_the_number(n / 10);
        assert(digits.drop_last() =~= decimal_digits(n / 10));
        assert(digits[0] == decimal_digits(n / 10)[0]);
        assert forall|i: int| 0 <= i < digits.len() implies 48 <= #[trigger] digits[i] <= 57 by {
            if i < digits.len() - 1 {
                assert(digits[i] == decimal_digits(n / 10)[i]);
            }
        }
    } else {
        assert(digits.drop_last() =~= Seq::<u8>::empty());
        assert(decimal_value(digits.drop_last()) == 0);
    }
}

/// Every byte is written as two digits, the one for the sixteens first, and
/// letters are written in lower case.
pub proof fn law_hex_digits(bytes: Seq<u8>, i: int)
    requires
        0 <= i < bytes.len(),
    ensures
        hex(bytes).len() == 2 * bytes.len(),
        hex(bytes)[2 * i] == "0123456789abcdef"@[bytes[i] as int / 16],
        hex(bytes)[2 * i + 1] == "0123456789abcdef"@[bytes[i] as int % 16],
{
    reveal_strlit("0123456789abcdef");
    assert((2 * i) / 2 == i && (2 * i) % 2 == 0);
    assert((2 * i + 1) / 2 == i && (2 * i + 1) % 2 == 1);
}

/// Different bytes are written differently.
pub proof fn law_hex_is_unambiguous(a: Seq<u8>, b: Seq<u8>)
    requires
        hex(a) == hex(b),
    ensures
        a == b,
{
    reveal_strlit("0123456789abcdef");
    assert(hex(a).len() == 2 * a.len());
    assert(hex(b).len() == 2 * b.len());
    assert forall|i: int| 0 <= i < a.len() implies a[i] == b[i] by {
        law_hex_digits(a, i);
        law_hex_digits(b, i);
        let (x, y) = (a[i] as int, b[i] as int);
        assert(x == 16 * (x / 16) + x % 16);
        assert(y == 16 * (y / 16) + y % 16);
    }
    assert(a =~= b);
}

/// A time takes 16 bytes: the year, the month, the day, the hour, the minute,
/// the second, a byte of padding, the nanoseconds, the time zone, the daylight
/// saving flags and another byte of padding. A time zone that is not known
/// counts as UTC.
pub proof fn law_times_are_laid_out_like_those_of_the_firmware(time: SeedTime)
    ensures
        ({
            let bytes = time.entropy_bytes();
            let zone: int = match time.time_zone {
                Some(zone) => if zone < 0 {
                    zone + 0x1_0000
                } else {
                    zone as int
                },
                None => 0,
            };
            &&& bytes.len() == 16
            &&& bytes[0] + 256 * bytes[1] == time.year
            &&& bytes[2] == time.month
            &&& bytes[3] == time.day
            &&& bytes[4] == time.hour
            &&& bytes[5] == time.minute
            &&& bytes[6] == time.second
            &&& bytes[7] == 0
            &&& bytes[8] + 0x100 * bytes[9] + 0x1_0000 * bytes[10] + 0x100_0000 * bytes[11]
                == time.nanosecond
            &&& bytes[12] + 256 * bytes[13] == zone
            &&& bytes[14] == time.daylight
            &&& bytes[15] == 0
        }),
{
    reveal_with_fuel(le_bytes, 5);
    let zone: int = match time.time_zone {
        Some(zone) => zone as int,
        None => 0,
    };
    assert(le_bytes(time.year as nat, 2).len() == 2);
    assert(le_bytes(time.nanosecond as nat, 4).len() == 4);
    assert(le_bytes((zone % 0x1_0000) as nat, 2).len() == 2);
    let n = time.nanosecond as nat;
    assert(n / 256 / 256 / 256 < 256);
    assert(n == n % 256 + 256 * (n / 256 % 256) + 0x1_0000 * (n / 256 / 256 % 256) + 0x100_0000 * (n
        / 256 / 256 / 256 % 256));
}

/// A seed of 32 bytes is preceded by its size, in four bytes.
pub proof fn law_seed_tables_hold_the_seed(seed: Seq<u8>)
    requires
        seed.len() == 32,
    ensures
        seed_table(seed) == seq![32u8, 0, 0, 0] + seed,
{
    reveal_with_fuel(le_bytes, 5);
    assert(le_bytes(32, 4) =~= seq![32u8, 0, 0, 0]);
}

/// Every unit takes two bytes, the low one first.
pub proof fn law_units_take_two_bytes(units: Seq<u16>, i: int)
    requires
        0 <= i < units.len(),
    ensures
        unit_bytes(units).len() == 2 * units.len(),
        unit_bytes(units)[2 * i] + 256 * unit_bytes(units)[2 * i + 1] == units[i],
{
    assert((2 * i) / 2 == i && (2 * i) % 2 == 0);
    assert((2 * i + 1) / 2 == i && (2 * i + 1) % 2 == 1);
    let x = units[i];
    assert(x == 256 * (x / 256) + x % 256);
}

proof fn lemma_code(c: char)
    ensures
        c as u32 as int == c as int,
        c as u32 <= 0xffff ==> c as u16 == c as u32,
{
}

/// A text can be encoded exactly if it holds neither a NUL nor a character
/// beyond U+FFFF, and every character is then encoded as its code.
pub proof fn law_encoding_keeps_the_codes(text: Seq<char>, i: int)
    requires
        0 <= i < text.len(),
    ensures
        text[i] as u32 == 0 || text[i] as u32 > 0xffff ==> ucs2(text) is None,
        ucs2(text) matches Some(units) ==> units.len() == text.len() && units[i] == text[i] as u32,
        (forall|j: int| 0 <= j < text.len() ==> 0 < (#[trigger] text[j]) as u32 <= 0xffff)
            ==> ucs2(text) is Some,
        ucs2(Seq::<char>::empty()) == Some(Seq::<u16>::empty()),
{
    assert(Seq::<char>::empty().map_values(|c: char| c as u16) =~= Seq::<u16>::empty());
    if forall|j: int| 0 <= j < text.len() ==> 0 < (#[trigger] text[j]) as u32 <= 0xffff {
        assert forall|j: int| 0 <= j < text.len() implies is_ucs2(#[trigger] text[j]) by {}
    }
    if ucs2(text) is Some {
        lemma_code(text[i]);
        assert(is_ucs2(text[i]));
    }
}

/// A name is ASCII exactly if all its units are below 128, and every unit is
/// then the code of its character.
pub proof fn law_ascii_names_keep_their_codes(units: Seq<u16>, i: int)
    requires
        0 <= i < units.len(),
    ensures
        units[i] >= 128 ==> !all_ascii(units),
        (forall|j: int| 0 <= j < units.len() ==> #[trigger] units[j] <= 127) ==> all_ascii(units),
        all_ascii(units) ==> ascii_text(units).len() == units.len() && ascii_text(units)[i] as int
            == units[i],
{
}

/// The path of a file is that of its directory, a `\` and its name, where `/`
/// counts as `\`.
pub proof fn law_file_paths_start_with_the_directory(
    directory: Seq<u16>,
    name: Seq<u16>,
    i: int,
)
    requires
        0 <= i < directory.len() + 1 + name.len(),
    ensures
        ({
            let path = path_in(directory, name);
            let d = directory.len() as int;
            let unit = if i < d {
                directory[i]
            } else if i == d {
                92
            } else {
                name[i - d - 1]
            };
            &&& path.len() == d + 1 + name.len()
            &&& path[i] == if unit == 47 {
                92
            } else {
                unit
            }
        }),
{
}

/// The first difference decides which of two paths comes first, and a path
/// comes before those that it is a part of.
pub proof fn law_first_difference_decides(a: Seq<u16>, b: Seq<u16>, i: int)
    requires
        0 <= i <= a.len(),
        i <= b.len(),
        forall|j: int| 0 <= j < i ==> #[trigger] a[j] == b[j],
        i < a.len() && i < b.len() ==> a[i] != b[i],
    ensures
        not_after(a, b) == if i == a.len() {
            true
        } else if i == b.len() {
            false
        } else {
            a[i] < b[i]
        },
    decreases i,
{
    if i > 0 {
        let (x, y) = (a.drop_first(), b.drop_first());
        assert forall|j: int| 0 <= j < i - 1 implies #[trigger] x[j] == y[j] by {
            assert(a[j + 1] == b[j + 1]);
        }
        assert(a[0] == b[0]);
        law_first_difference_decides(x, y, i - 1);
    }
}

/// A relative path is put behind the base with one `/` between them; an
/// absolute one stands for itself.
pub proof fn law_paths_are_put_together(base: Seq<u8>, path: Seq<u8>)
    ensures
        path.len() > 0 && path[0] == 47 ==> joined(base, path) == path,
        path.len() > 0 && path[0] != 47 && base.len() > 0 && base.last() != 47 ==> joined(
            base,
            path,
        ) == base + seq![47u8] + path,
        path.len() > 0 && path[0] != 47 && base.len() > 0 && base.last() == 47 ==> joined(
            base,
            path,
        ) == base + path,
        path.len() > 0 ==> joined(Seq::empty(), path) == path,
{
    assert(base.push(47u8) =~= base + seq![47u8]);
    assert(Seq::<u8>::empty() + path =~= path);
}

proof fn lemma_no_dot(name: Seq<u8>, from: int)
    requires
        0 <= from <= name.len(),
        forall|i: int| from <= i < name.len() ==> #[trigger] name[i] != 46,
    ensures
        last_dot(name) == last_dot(name.take(from)),
    decreases name.len(),
{
    if name.len() > from {
        let shorter = name.drop_last();
        assert(name[name.len() - 1] == name.last());
        assert forall|i: int| from <= i < shorter.len() implies #[trigger] shorter[i] != 46 by {
            assert(name[i] == shorter[i]);
        }
        lemma_no_dot(shorter, from);
        assert(shorter.take(from) =~= name.take(from));
    } else {
        assert(name.take(from) =~= name);
    }
}

/// The extension of a file name is what follows its last `.`, and the stem is
/// what precedes it. A name has no extension if it holds no `.`, or none but
/// at its start.
pub proof fn law_extensions_follow_the_last_dot(stem: Seq<u8>, extension: Seq<u8>)
    requires
        forall|i: int| 0 <= i < extension.len() ==> #[trigger] extension[i] != 46,
    ensures
        stem.len() > 0 ==> extension_of(stem + seq![46u8] + extension) == Some(extension)
            && stem_of(stem + seq![46u8] + extension) == stem,
        extension_of(extension) is None,
        stem_of(extension) == extension,
        extension_of(seq![46u8] + extension) is None,
        stem_of(seq![46u8] + extension) == seq![46u8] + extension,
{
    let name = stem + seq![46u8] + extension;
    let n = stem.len() as int;
    lemma_no_dot(name, n + 1);
    assert(name.take(n + 1).last() == 46);
    assert(last_dot(name) == n);
    assert(name.skip(n + 1) =~= extension);
    assert(name.take(n) =~= stem);
    lemma_no_dot(extension, 0);
    assert(extension.take(0).len() == 0);
    let hidden = seq![46u8] + extension;
    lemma_no_dot(hidden, 1);
    assert(hidden.take(1).last() == 46);
    assert(last_dot(hidden) == 0);
}

/// Padding consists of zeros.
pub proof fn law_padding_is_zero(len: nat, i: int)
    requires
        0 <= i < len,
    ensures
        zeros(len).len() == len,
        zeros(len)[i] == 0,
{
}

} // verus!

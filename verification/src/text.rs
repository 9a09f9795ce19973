//! Verified building blocks for the textual formats the engine owns:
//! decimal numbers, zero-padded fields and simple progress bars.

use vstd::prelude::*;

verus! {

/// Relies on `String::push`: appends exactly one character to the string.
#[verifier::external_body]
pub fn string_push(s: &mut String, c: char)
    ensures
        final(s)@ == old(s)@.push(c),
{
    s.push(c);
}

/// The character for a single decimal digit.
pub open spec fn spec_digit(d: int) -> char {
    if d == 0 {
        '0'
    } else if d == 1 {
        '1'
    } else if d == 2 {
        '2'
    } else if d == 3 {
        '3'
    } else if d == 4 {
        '4'
    } else if d == 5 {
        '5'
    } else if d == 6 {
        '6'
    } else if d == 7 {
        '7'
    } else if d == 8 {
        '8'
    } else {
        '9'
    }
}

/// Whether a character is a decimal digit.
pub open spec fn is_digit(c: char) -> bool {
    '0' <= c && c <= '9'
}

/// The numeric value of a decimal digit character.
pub open spec fn digit_value(c: char) -> int {
    c as int - '0' as int
}

pub proof fn lemma_digit_value(d: int)
    requires
        0 <= d < 10,
    ensures
        is_digit(spec_digit(d)),
        digit_value(spec_digit(d)) == d,
{
}

pub fn digit_char(d: u8) -> (c: char)
    requires
        d < 10,
    ensures
        c == spec_digit(d as int),
{
    match d {
        0 => '0',
        1 => '1',
        2 => '2',
        3 => '3',
        4 => '4',
        5 => '5',
        6 => '6',
        7 => '7',
        8 => '8',
        _ => '9',
    }
}

/// A two-character, zero-padded decimal field.
pub open spec fn spec_two_digits(n: int) -> Seq<char> {
    seq![spec_digit(n / 10), spec_digit(n % 10)]
}

pub fn push_two_digits(s: &mut String, n: u8)
    requires
        n < 100,
    ensures
        final(s)@ == old(s)@ + spec_two_digits(n as int),
{
    string_push(s, digit_char(n / 10));
    string_push(s, digit_char(n % 10));
    proof {
        assert(final(s)@ =~= old(s)@ + spec_two_digits(n as int));
    }
}

/// The ordinary decimal rendering of a non-negative number, without padding.
pub open spec fn spec_decimal(n: int) -> Seq<char>
    decreases n,
{
    if n < 10 {
        seq![spec_digit(n)]
    } else {
        spec_decimal(n / 10).push(spec_digit(n % 10))
    }
}

pub fn push_decimal(s: &mut String, n: u64)
    ensures
        final(s)@ == old(s)@ + spec_decimal(n as int),
{
    let mut digits: Vec<u8> = Vec::new();
    let mut m: u64 = n;
    loop
        invariant_except_break
            spec_decimal(n as int) =~= spec_decimal(m as int) + reversed_digit_chars(digits@),
            forall|j: int| 0 <= j < digits@.len() ==> digits@[j] < 10,
        ensures
            spec_decimal(n as int) =~= reversed_digit_chars(digits@),
            forall|j: int| 0 <= j < digits@.len() ==> digits@[j] < 10,
        decreases m,
    {
        let ghost prev = digits@;
        digits.push((m % 10) as u8);
        proof {
            assert(reversed_digit_chars(digits@) =~= seq![
                spec_digit((m % 10) as int),
            ] + reversed_digit_chars(prev));
            if m >= 10 {
                assert(spec_decimal(m as int) =~= spec_decimal(
                    m as int / 10,
                ).push(spec_digit(m as int % 10)));
                assert(spec_decimal(n as int) =~= spec_decimal(m as int / 10)
                    + reversed_digit_chars(digits@));
            } else {
                assert(spec_decimal(m as int) =~= seq![spec_digit(m as int)]);
                assert(spec_decimal(n as int) =~= reversed_digit_chars(digits@));
            }
        }
        if m < 10 {
            break ;
        }
        m = m / 10;
    }
    let mut i: usize = digits.len();
    while i > 0
        invariant
            i <= digits@.len(),
            forall|j: int| 0 <= j < digits@.len() ==> digits@[j] < 10,
            spec_decimal(n as int) =~= reversed_digit_chars(digits@),
            s@ =~= old(s)@ + reversed_digit_chars(digits@).take(digits@.len() - i),
        decreases i,
    {
        i = i - 1;
        string_push(s, digit_char(digits[i]));
        proof {
            assert(s@ =~= old(s)@ + reversed_digit_chars(digits@).take(digits@.len() - i));
        }
    }
    proof {
        assert(reversed_digit_chars(digits@).take(digits@.len() as int) =~= reversed_digit_chars(
            digits@,
        ));
        assert(s@ =~= old(s)@ + spec_decimal(n as int));
    }
}

/// The characters of a digit sequence read back to front.
pub open spec fn reversed_digit_chars(ds: Seq<u8>) -> Seq<char> {
    Seq::new(ds.len(), |i: int| spec_digit(ds[ds.len() - 1 - i] as int))
}

/// Rendering of a duration in whole seconds as `"now"`, `"Ym"` or `"Xh Ym"`.
pub open spec fn spec_duration(secs: int) -> Seq<char> {
    if secs <= 0 {
        "now"@
    } else if secs / 3600 > 0 {
        spec_decimal(secs / 3600) + "h "@ + spec_decimal(secs % 3600 / 60) + "m"@
    } else {
        spec_decimal(secs % 3600 / 60) + "m"@
    }
}

/// Format a duration in seconds as an `"Xh Ym"` or `"Ym"` string.
///
/// A non-positive duration reads `"now"`.
pub fn format_duration_secs(secs: i64) -> (r: String)
    ensures
        r@ == spec_duration(secs as int),
{
    if secs <= 0 {
        let r = String::from_str("now");
        proof {
            reveal_strlit("now");
        }
        return r;
    }
    let hours: i64 = secs / 3600;
    let minutes: i64 = (secs % 3600) / 60;
    let mut out = String::new();
    if hours > 0 {
        push_decimal(&mut out, hours as u64);
        string_push(&mut out, 'h');
        string_push(&mut out, ' ');
        push_decimal(&mut out, minutes as u64);
        string_push(&mut out, 'm');
        proof {
            reveal_strlit("h ");
            reveal_strlit("m");
            assert(out@ =~= spec_duration(secs as int));
        }
    } else {
        push_decimal(&mut out, minutes as u64);
        string_push(&mut out, 'm');
        proof {
            reveal_strlit("m");
            assert(out@ =~= spec_duration(secs as int));
        }
    }
    out
}

/// The filled-cell count of a progress bar: the rounded share of `width`,
/// capped at `width` itself.
pub open spec fn spec_bar_filled(filled: int, total: int, width: int) -> int {
    if filled >= total {
        width
    } else {
        (2 * filled * width + total) / (2 * total)
    }
}

/// The bar itself: filled cells, then light cells up to `width`.
pub open spec fn spec_progress_bar(filled: int, total: int, width: int) -> Seq<char> {
    if total == 0 {
        Seq::new(width as nat, |i: int| '\u{2591}')
    } else {
        Seq::new(spec_bar_filled(filled, total, width) as nat, |i: int| '\u{2588}') + Seq::new(
            (width - spec_bar_filled(filled, total, width)) as nat,
            |i: int| '\u{2591}',
        )
    }
}

/// Create a simple progress bar of `width` cells, the filled share rounded
/// to the nearest cell.
pub fn progress_bar(filled: u32, total: u32, width: usize) -> (r: String)
    ensures
        r@ == spec_progress_bar(filled as int, total as int, width as int),
{
    let mut out = String::new();
    if total == 0 {
        let mut i: usize = 0;
        while i < width
            invariant
                i <= width,
                out@ =~= Seq::new(i as nat, |j: int| '\u{2591}'),
            decreases width - i,
        {
            string_push(&mut out, '\u{2591}');
            i = i + 1;
            proof {
                assert(out@ =~= Seq::new(i as nat, |j: int| '\u{2591}'));
            }
        }
        return out;
    }
    let filled_count: usize = if filled >= total {
        width
    } else {
        let fu: u128 = filled as u128;
        let wu: u128 = width as u128;
        proof {
            assert(2 * (fu as int) * (wu as int) + (total as int)
                < 0x1_0000_0000_0000_0000_0000_0000_0000_0000int) by (nonlinear_arith)
                requires
                    fu < 0x1_0000_0000,
                    wu <= 0xFFFF_FFFF_FFFF_FFFFu128,
                    total < 0x1_0000_0000,
            ;
        }
        let num: u128 = 2 * fu * wu + (total as u128);
        let den: u128 = 2 * (total as u128);
        proof {
            assert(num / den <= wu) by (nonlinear_arith)
                requires
                    num == 2 * fu * wu + (total as u128),
                    den == 2 * (total as u128),
                    fu < total as u128,
                    total > 0,
            ;
        }
        (num / den) as usize
    };
    let ghost fc = spec_bar_filled(filled as int, total as int, width as int);
    proof {
        assert(filled_count == fc);
    }
    let mut i: usize = 0;
    while i < filled_count
        invariant
            i <= filled_count,
            out@ =~= Seq::new(i as nat, |j: int| '\u{2588}'),
        decreases filled_count - i,
    {
        string_push(&mut out, '\u{2588}');
        i = i + 1;
        proof {
            assert(out@ =~= Seq::new(i as nat, |j: int| '\u{2588}'));
        }
    }
    let mut k: usize = 0;
    let light_count: usize = if width >= filled_count {
        width - filled_count
    } else {
        0
    };
    while k < light_count
        invariant
            k <= light_count,
            out@ =~= Seq::new(filled_count as nat, |j: int| '\u{2588}') + Seq::new(
                k as nat,
                |j: int| '\u{2591}',
            ),
        decreases light_count - k,
    {
        string_push(&mut out, '\u{2591}');
        k = k + 1;
        proof {
            assert(out@ =~= Seq::new(filled_count as nat, |j: int| '\u{2588}') + Seq::new(
                k as nat,
                |j: int| '\u{2591}',
            ));
        }
    }
    proof {
        assert(fc <= width);
        assert(out@ =~= spec_progress_bar(filled as int, total as int, width as int));
    }
    out
}

} // verus!

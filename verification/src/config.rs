//! Configuration values the engine consumes: the UTC-offset text format
//! used during setup, the dhikr section, and the defaults.

use vstd::prelude::*;

use crate::text::{digit_value, is_digit, push_two_digits, string_push};
use crate::text::spec_decimal;
use crate::text::spec_two_digits;
use crate::text::push_decimal;

verus! {

/// A user-defined dhikr as written in the configuration file.
#[derive(Clone, Debug)]
pub struct CustomDhikr {
    pub name: String,
    pub dhikr_type: String,
    pub target: i32,
    pub frequency: String,
}

impl Default for CustomDhikr {
    fn default() -> (r: CustomDhikr)
        ensures
            r.name@ == Seq::<char>::empty(),
            r.dhikr_type@ == Seq::<char>::empty(),
            r.target == 0,
            r.frequency@ == Seq::<char>::empty(),
    {
        CustomDhikr {
            name: String::new(),
            dhikr_type: String::new(),
            target: 0,
            frequency: String::new(),
        }
    }
}

/// The dhikr section of the configuration.
#[derive(Clone, Debug)]
pub struct DhikrConfig {
    pub enabled: bool,
    pub show_in_main_view: bool,
    pub custom: Vec<CustomDhikr>,
}

impl Default for DhikrConfig {
    /// Dhikr tracking is on by default, with no custom entries.
    fn default() -> (r: DhikrConfig)
        ensures
            r.enabled,
            r.show_in_main_view,
            r.custom@.len() == 0,
    {
        DhikrConfig { enabled: true, show_in_main_view: true, custom: Vec::new() }
    }
}

/// The default display name of the configured location.
pub fn default_location_name() -> (r: String)
    ensures
        r@ == "Islamabad"@,
{
    String::from_str("Islamabad")
}

/// The default calculation method.
pub fn default_calc_method() -> (r: String)
    ensures
        r@ == "MuslimWorldLeague"@,
{
    String::from_str("MuslimWorldLeague")
}

/// The default madhab.
pub fn default_madhab() -> (r: String)
    ensures
        r@ == "Hanafi"@,
{
    String::from_str("Hanafi")
}

/// The default UTC offset, in minutes.
pub fn default_timezone_offset() -> (r: i32)
    ensures
        r == 300,
{
    300
}

/// The default Hijri day adjustment.
pub fn default_hijri_offset() -> (r: i32)
    ensures
        r == 0,
{
    0
}

/// The default for boolean feature switches.
pub fn default_true() -> (r: bool)
    ensures
        r,
{
    true
}

/// A non-empty run of decimal digits.
pub open spec fn is_digits(s: Seq<char>) -> bool {
    s.len() > 0 && forall|i: int| 0 <= i < s.len() ==> #[trigger] is_digit(s[i])
}

/// The number a run of digits denotes.
pub open spec fn digits_value(s: Seq<char>) -> int
    decreases s.len(),
{
    if s.len() == 0 {
        0
    } else {
        digits_value(s.drop_last()) * 10 + digit_value(s.last())
    }
}

/// Ten to the `n`-th.
pub open spec fn pow10(n: int) -> int
    decreases (if n > 0 {
        n
    } else {
        0
    }),
{
    if n <= 0 {
        1
    } else {
        10 * pow10(n - 1)
    }
}

/// A digit run denotes less than ten to its length.
pub proof fn lemma_digits_value_bound(s: Seq<char>)
    ensures
        0 <= digits_value(s) < pow10(s.len() as int) || !is_digits(s),
    decreases s.len(),
{
    if s.len() > 0 {
        let head = s.drop_last();
        lemma_digits_value_bound(head);
        if is_digits(s) {
            assert(is_digits(head) || head.len() == 0);
            assert(is_digit(s.last()));
            assert(0 <= digit_value(s.last()) < 10);
            assert(pow10(s.len() as int) == 10 * pow10(head.len() as int));
        }
    }
}

/// The index of the first occurrence of a character, or -1.
pub open spec fn first_index_of(s: Seq<char>, c: char) -> int
    decreases s.len(),
{
    if s.len() == 0 {
        -1
    } else if s[0] == c {
        0
    } else {
        let rest = first_index_of(s.skip(1), c);
        if rest < 0 {
            -1
        } else {
            rest + 1
        }
    }
}

proof fn lemma_first_index_at(s: Seq<char>, c: char, i: int)
    requires
        0 <= i < s.len(),
        s[i] == c,
        forall|j: int| 0 <= j < i ==> s[j] != c,
    ensures
        first_index_of(s, c) == i,
    decreases i,
{
    if i > 0 {
        lemma_first_index_at(s.skip(1), c, i - 1);
    }
}

proof fn lemma_first_index_none(s: Seq<char>, c: char)
    requires
        forall|j: int| 0 <= j < s.len() ==> s[j] != c,
    ensures
        first_index_of(s, c) == -1,
    decreases s.len(),
{
    if s.len() > 0 {
        lemma_first_index_none(s.skip(1), c);
    }
}

/// Find the first occurrence of a character.
fn find_char(s: &str, c: char) -> (r: Option<usize>)
    ensures
        (match r {
            Some(i) => first_index_of(s@, c) == i,
            None => first_index_of(s@, c) == -1,
        }),
{
    let len = s.unicode_len();
    let mut i: usize = 0;
    while i < len
        invariant
            i <= len,
            len == s@.len(),
            forall|j: int| 0 <= j < i ==> s@[j] != c,
        decreases len - i,
    {
        if s.get_char(i) == c {
            proof {
                lemma_first_index_at(s@, c, i as int);
            }
            return Some(i);
        }
        i = i + 1;
    }
    proof {
        lemma_first_index_none(s@, c);
    }
    None
}

/// Read a digit run of at most seven digits within `[lo, hi)`.
fn digits_val(s: &str, lo: usize, hi: usize) -> (r: Option<u64>)
    requires
        lo <= hi <= s@.len(),
    ensures
        (if is_digits(s@.subrange(lo as int, hi as int)) && hi - lo <= 7 {
            r == Some((digits_value(s@.subrange(lo as int, hi as int))) as u64)
        } else {
            r is None
        }),
        r is Some ==> 0 <= r.unwrap() < 10000000,
{
    let ghost sub = s@.subrange(lo as int, hi as int);
    if hi <= lo || hi - lo > 7 {
        return None;
    }
    let mut acc: u64 = 0;
    let mut i: usize = lo;
    while i < hi
        invariant
            lo <= i <= hi <= s@.len(),
            hi - lo <= 7,
            sub == s@.subrange(lo as int, hi as int),
            forall|j: int| lo <= j < i ==> #[trigger] is_digit(s@[j]),
            acc == digits_value(s@.subrange(lo as int, i as int)),
            acc < 10000000,
        decreases hi - i,
    {
        let c = s.get_char(i);
        if !(c >= '0' && c <= '9') {
            proof {
                assert(sub[i - lo] == s@[i as int]);
                assert(!is_digit(sub[i - lo]));
            }
            return None;
        }
        proof {
            let pre = s@.subrange(lo as int, i as int);
            let ext = s@.subrange(lo as int, i as int + 1);
            assert(ext.drop_last() =~= pre);
            assert(ext.last() == s@[i as int]);
            lemma_digits_value_bound(ext);
            assert(is_digits(ext)) by {
                assert(forall|j: int|
                    0 <= j < ext.len() ==> #[trigger] is_digit(ext[j]) == is_digit(
                        s@[lo + j],
                    ));
            }
            assert(pow10(ext.len() as int) <= 10000000) by {
                reveal_with_fuel(pow10, 8);
            }
        }
        acc = acc * 10 + (c as u32 - '0' as u32) as u64;
        i = i + 1;
    }
    proof {
        assert(sub =~= s@.subrange(lo as int, i as int));
        assert(is_digits(sub));
    }
    Some(acc)
}

/// The minute count an unsigned offset body denotes: plain hours,
/// `H:MM` hours and minutes, or `H.F` decimal hours rounded to the
/// nearest minute. Digit runs are capped at seven digits.
pub open spec fn spec_tz_body_value(s: Seq<char>) -> Option<int> {
    let ci = first_index_of(s, ':');
    let di = first_index_of(s, '.');
    if ci >= 0 {
        let l = s.subrange(0, ci);
        let r = s.subrange(ci + 1, s.len() as int);
        if is_digits(l) && is_digits(r) && l.len() <= 7 && r.len() <= 7 {
            Some(digits_value(l) * 60 + digits_value(r))
        } else {
            None
        }
    } else if di >= 0 {
        let l = s.subrange(0, di);
        let r = s.subrange(di + 1, s.len() as int);
        if is_digits(l) && is_digits(r) && l.len() <= 7 && r.len() <= 7 {
            Some(
                ((digits_value(l) * pow10(r.len() as int) + digits_value(r)) * 60 + pow10(
                    r.len() as int,
                ) / 2) / pow10(r.len() as int),
            )
        } else {
            None
        }
    } else {
        if is_digits(s) && s.len() <= 7 {
            Some(digits_value(s) * 60)
        } else {
            None
        }
    }
}

/// Ten to a small exponent, executably.
fn pow10_exec(n: usize) -> (r: u64)
    requires
        n <= 7,
    ensures
        r == pow10(n as int),
        1 <= r <= 10000000,
{
    proof {
        reveal_with_fuel(pow10, 8);
    }
    match n {
        0 => 1,
        1 => 10,
        2 => 100,
        3 => 1000,
        4 => 10000,
        5 => 100000,
        6 => 1000000,
        _ => 10000000,
    }
}

/// Parse the unsigned body of an offset.
fn parse_tz_body(s: &str) -> (r: Option<i64>)
    ensures
        (match spec_tz_body_value(s@) {
            Some(v) => r == Some(v as i64) && 0 <= v < 700000000,
            None => r is None,
        }),
{
    let len = s.unicode_len();
    proof {
        if first_index_of(s@, ':') >= 0 {
            lemma_digits_value_bound(s@.subrange(0, first_index_of(s@, ':')));
            lemma_digits_value_bound(
                s@.subrange(first_index_of(s@, ':') + 1, s@.len() as int),
            );
        }
        if first_index_of(s@, '.') >= 0 {
            lemma_digits_value_bound(s@.subrange(0, first_index_of(s@, '.')));
            lemma_digits_value_bound(
                s@.subrange(first_index_of(s@, '.') + 1, s@.len() as int),
            );
        }
        lemma_digits_value_bound(s@);
        reveal_with_fuel(pow10, 8);
    }
    if let Some(ci) = find_char(s, ':') {
        proof {
            assert(0 <= first_index_of(s@, ':') < s@.len()) by {
                lemma_first_index_props(s@, ':');
            }
        }
        let h = digits_val(s, 0, ci);
        let m = digits_val(s, ci + 1, len);
        match (h, m) {
            (Some(hv), Some(mv)) => {
                proof {
                    assert(spec_tz_body_value(s@) is Some);
                    assert(spec_tz_body_value(s@).unwrap() == hv * 60 + mv);
                }
                Some((hv * 60 + mv) as i64)
            },
            _ => {
                proof {
                    assert(spec_tz_body_value(s@) is None);
                }
                None
            },
        }
    } else if let Some(di) = find_char(s, '.') {
        proof {
            assert(0 <= first_index_of(s@, '.') < s@.len()) by {
                lemma_first_index_props(s@, '.');
            }
        }
        let h = digits_val(s, 0, di);
        let f = digits_val(s, di + 1, len);
        match (h, f) {
            (Some(hv), Some(fv)) => {
                let p: u64 = pow10_exec(len - di - 1);
                proof {
                    assert(fv < p) by {
                        lemma_digits_value_bound(s@.subrange(di as int + 1, s@.len() as int));
                    }
                    assert((hv * p + fv) * 60 + p / 2 < p * 700000000) by (nonlinear_arith)
                        requires
                            hv < 10000000,
                            fv < p,
                            1 <= p <= 10000000,
                    ;
                }
                let total: u64 = ((hv * p + fv) * 60 + p / 2) / p;
                proof {
                    vstd::arithmetic::div_mod::lemma_multiply_divide_lt(
                        ((hv * p + fv) * 60 + p / 2) as int,
                        p as int,
                        700000000,
                    );
                    assert(spec_tz_body_value(s@) is Some);
                    assert(spec_tz_body_value(s@).unwrap() == total);
                }
                Some(total as i64)
            },
            _ => {
                proof {
                    assert(spec_tz_body_value(s@) is None);
                }
                None
            },
        }
    } else {
        match digits_val(s, 0, len) {
            Some(v) => {
                proof {
                    assert(s@.subrange(0, s@.len() as int) =~= s@);
                    assert(spec_tz_body_value(s@) is Some);
                    assert(spec_tz_body_value(s@).unwrap() == v * 60);
                }
                Some((v * 60) as i64)
            },
            None => {
                proof {
                    assert(s@.subrange(0, s@.len() as int) =~= s@);
                    assert(spec_tz_body_value(s@) is None);
                }
                None
            },
        }
    }
}

/// A found index is a real occurrence.
proof fn lemma_first_index_props(s: Seq<char>, c: char)
    ensures
        first_index_of(s, c) >= 0 ==> first_index_of(s, c) < s.len() && s[first_index_of(s, c)]
            == c,
        first_index_of(s, c) >= -1,
    decreases s.len(),
{
    if s.len() > 0 && s[0] != c {
        lemma_first_index_props(s.skip(1), c);
    }
}

/// The minute count a signed offset string denotes: an optional single
/// leading `+` or `-`, then an unsigned body.
pub open spec fn spec_parse_tz_offset(s: Seq<char>) -> Option<int> {
    if s.len() == 0 {
        None
    } else if s[0] == '+' {
        spec_tz_body_value(s.skip(1))
    } else if s[0] == '-' {
        (match spec_tz_body_value(s.skip(1)) {
            Some(v) => Some(-v),
            None => None,
        })
    } else {
        spec_tz_body_value(s)
    }
}

/// Parse a UTC offset string into total minutes.
///
/// Accepts `5:30`, `+5:30`, `-5:30`, `5`, `+5`, `5.5` and the like;
/// anything else is `None`.
pub fn parse_tz_offset(s: &str) -> (r: Option<i32>)
    ensures
        (match spec_parse_tz_offset(s@) {
            Some(v) => r == Some(v as i32),
            None => r is None,
        }),
{
    let len = s.unicode_len();
    if len == 0 {
        return None;
    }
    let c0 = s.get_char(0);
    let (neg, start): (bool, usize) = if c0 == '-' {
        (true, 1)
    } else if c0 == '+' {
        (false, 1)
    } else {
        (false, 0)
    };
    let body = s.substring_char(start, len);
    proof {
        if start == 1 {
            assert(body@ =~= s@.skip(1));
        } else {
            assert(body@ =~= s@);
        }
    }
    match parse_tz_body(body) {
        Some(v) => {
            if neg {
                Some(-(v as i32))
            } else {
                Some(v as i32)
            }
        },
        None => None,
    }
}

/// Whether a character counts as surrounding whitespace.
pub open spec fn spec_is_space(c: char) -> bool {
    c == ' ' || c == '\t' || c == '\n' || c == '\r'
}

fn is_space(c: char) -> (r: bool)
    ensures
        r == spec_is_space(c),
{
    c == ' ' || c == '\t' || c == '\n' || c == '\r'
}

/// The sequence with surrounding whitespace removed.
pub open spec fn spec_trim_front(s: Seq<char>) -> Seq<char>
    decreases s.len(),
{
    if s.len() > 0 && spec_is_space(s[0]) {
        spec_trim_front(s.skip(1))
    } else {
        s
    }
}

pub open spec fn spec_trim_back(s: Seq<char>) -> Seq<char>
    decreases s.len(),
{
    if s.len() > 0 && spec_is_space(s.last()) {
        spec_trim_back(s.drop_last())
    } else {
        s
    }
}

pub open spec fn spec_trim(s: Seq<char>) -> Seq<char> {
    spec_trim_back(spec_trim_front(s))
}

proof fn lemma_trim_front_skip(s: Seq<char>, i: int)
    requires
        0 <= i <= s.len(),
        forall|j: int| 0 <= j < i ==> spec_is_space(s[j]),
    ensures
        spec_trim_front(s) == spec_trim_front(s.skip(i)),
    decreases i,
{
    if i == 0 {
        assert(s.skip(0) =~= s);
    } else {
        assert(spec_is_space(s[0]));
        assert(forall|j: int| 0 <= j < i - 1 ==> spec_is_space(#[trigger] s.skip(1)[j]));
        assert(s.skip(1).skip(i - 1) =~= s.skip(i));
        lemma_trim_front_skip(s.skip(1), i - 1);
    }
}

proof fn lemma_trim_back_take(s: Seq<char>, i: int)
    requires
        0 <= i <= s.len(),
        forall|j: int| i <= j < s.len() ==> spec_is_space(s[j]),
    ensures
        spec_trim_back(s) == spec_trim_back(s.take(i)),
    decreases s.len() - i,
{
    if i == s.len() {
        assert(s.take(i) =~= s);
    } else {
        assert(spec_is_space(s.last()));
        assert(s.drop_last() =~= s.take(s.len() - 1));
        assert(forall|j: int|
            i <= j < s.len() - 1 ==> spec_is_space(#[trigger] s.take(s.len() - 1)[j]));
        lemma_trim_back_take(s.take(s.len() - 1), i);
        assert(s.take(s.len() - 1).take(i) =~= s.take(i));
    }
}

/// Parse a UTC offset, ignoring surrounding whitespace.
pub fn parse_tz(s: &str) -> (r: Option<i32>)
    ensures
        (match spec_parse_tz_offset(spec_trim(s@)) {
            Some(v) => r == Some(v as i32),
            None => r is None,
        }),
{
    let len = s.unicode_len();
    let mut lo: usize = 0;
    while lo < len && is_space(s.get_char(lo))
        invariant
            lo <= len,
            len == s@.len(),
            forall|j: int| 0 <= j < lo ==> spec_is_space(s@[j]),
        decreases len - lo,
    {
        lo = lo + 1;
    }
    let mut hi: usize = len;
    while hi > lo && is_space(s.get_char(hi - 1))
        invariant
            lo <= hi <= len,
            len == s@.len(),
            forall|j: int| 0 <= j < lo ==> spec_is_space(s@[j]),
            forall|j: int| hi <= j < s@.len() ==> spec_is_space(s@[j]),
        decreases hi,
    {
        hi = hi - 1;
    }
    let core = s.substring_char(lo, hi);
    proof {
        lemma_trim_front_skip(s@, lo as int);
        let sk = s@.skip(lo as int);
        if hi == lo {
            assert(forall|j: int| 0 <= j < sk.len() ==> spec_is_space(sk[j]));
            lemma_trim_back_take(sk, 0);
            assert(spec_trim_front(sk) == sk) by {
                if sk.len() > 0 {
                    assert(!spec_is_space(s@[lo as int]) || lo == hi);
                }
            }
        } else {
            assert(!spec_is_space(s@[lo as int]));
            assert(spec_trim_front(sk) == sk);
            assert(forall|j: int| (hi - lo) <= j < sk.len() ==> spec_is_space(sk[j]));
            lemma_trim_back_take(sk, hi - lo);
        }
        assert(sk.take(hi - lo) =~= s@.subrange(lo as int, hi as int));
        assert(spec_trim(s@) == core@);
    }
    parse_tz_offset(core)
}

/// The rendering of an offset in minutes: a sign, the whole hours, and
/// `:MM` exactly when the minute part is not zero.
pub open spec fn spec_format_tz(minutes: int) -> Seq<char> {
    let sign: Seq<char> = if minutes < 0 {
        "-"@
    } else {
        "+"@
    };
    let a = if minutes < 0 {
        -minutes
    } else {
        minutes
    };
    if a % 60 == 0 {
        sign + spec_decimal(a / 60)
    } else {
        sign + spec_decimal(a / 60) + ":"@ + spec_two_digits(a % 60)
    }
}

/// Format total minutes as a `+H:MM` or `-H:MM` string, omitting `:MM`
/// on whole hours.
pub fn format_tz_offset(minutes: i32) -> (r: String)
    requires
        minutes > i32::MIN,
    ensures
        r@ == spec_format_tz(minutes as int),
{
    let mut out = String::new();
    let a: i32 = if minutes < 0 {
        string_push(&mut out, '-');
        -minutes
    } else {
        string_push(&mut out, '+');
        minutes
    };
    push_decimal(&mut out, (a / 60) as u64);
    let m: i32 = a % 60;
    if m != 0 {
        string_push(&mut out, ':');
        push_two_digits(&mut out, m as u8);
    }
    proof {
        reveal_strlit("-");
        reveal_strlit("+");
        reveal_strlit(":");
        assert(out@ =~= spec_format_tz(minutes as int));
    }
    out
}

/// Format total minutes as a signed offset string.
pub fn format_tz(minutes: i32) -> (r: String)
    requires
        minutes > i32::MIN,
    ensures
        r@ == spec_format_tz(minutes as int),
{
    format_tz_offset(minutes)
}

} // verus!

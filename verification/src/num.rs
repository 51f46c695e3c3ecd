//! Plain text helpers: comparing texts, parsing signed 32-bit integers out
//! of submission values, and rendering sequence numbers into block
//! identifiers and score options.

use vstd::prelude::*;

verus! {

/// Whether two texts are the same sequence of characters.
pub fn str_eq(a: &str, b: &str) -> (r: bool)
    ensures
        r == (a@ == b@),
{
    let n = a.unicode_len();
    if n != b.unicode_len() {
        return false;
    }
    let mut i: usize = 0;
    while i < n
        invariant
            i <= n,
            n == a@.len(),
            n == b@.len(),
            forall|k: int| 0 <= k < i ==> a@[k] == #[trigger] b@[k],
        decreases n - i,
    {
        if a.get_char(i) != b.get_char(i) {
            return false;
        }
        i = i + 1;
    }
    proof {
        assert(a@ =~= b@);
    }
    true
}

/// The ten decimal digit characters.
pub open spec fn is_dec_digit(c: char) -> bool {
    c == '0' || c == '1' || c == '2' || c == '3' || c == '4' || c == '5' || c == '6' || c == '7'
        || c == '8' || c == '9'
}

/// Numeric value of one decimal digit character.
pub open spec fn dec_digit_value(c: char) -> int {
    if c == '0' {
        0
    } else if c == '1' {
        1
    } else if c == '2' {
        2
    } else if c == '3' {
        3
    } else if c == '4' {
        4
    } else if c == '5' {
        5
    } else if c == '6' {
        6
    } else if c == '7' {
        7
    } else if c == '8' {
        8
    } else {
        9
    }
}

/// Digit character for a value in 0..10.
pub open spec fn dec_digit_char(d: int) -> char {
    if d == 0 {
        '0'
    } else if d == 1 {
        '1'
    } else if d == 2 {
        '2'
    } else if d == 3 {
        '3'
    } else if d == 4 {
        '4'
    } else if d == 5 {
        '5'
    } else if d == 6 {
        '6'
    } else if d == 7 {
        '7'
    } else if d == 8 {
        '8'
    } else {
        '9'
    }
}

pub open spec fn all_dec_digits(s: Seq<char>) -> bool {
    forall|i: int| 0 <= i < s.len() ==> is_dec_digit(#[trigger] s[i])
}

/// Value of a string of decimal digits, most significant first.
pub open spec fn dec_value(s: Seq<char>) -> int
    decreases s.len(),
{
    if s.len() == 0 {
        0
    } else {
        dec_value(s.drop_last()) * 10 + dec_digit_value(s.last())
    }
}

/// The integer denoted by a string in the form accepted by `i32::from_str`:
/// an optional sign followed by at least one digit, nothing else.
pub open spec fn int_of_text(s: Seq<char>) -> Option<int> {
    if s.len() == 0 {
        None
    } else if s[0] == '-' {
        if s.len() > 1 && all_dec_digits(s.skip(1)) {
            Some(-dec_value(s.skip(1)))
        } else {
            None
        }
    } else if s[0] == '+' {
        if s.len() > 1 && all_dec_digits(s.skip(1)) {
            Some(dec_value(s.skip(1)))
        } else {
            None
        }
    } else {
        if all_dec_digits(s) {
            Some(dec_value(s))
        } else {
            None
        }
    }
}

/// What parsing a string as an `i32` yields: the denoted integer when there
/// is one and it fits, `None` otherwise.
pub open spec fn parse_i32_text(s: Seq<char>) -> Option<i32> {
    match int_of_text(s) {
        Some(v) => if i32::MIN <= v <= i32::MAX {
            Some(v as i32)
        } else {
            None
        },
        None => None,
    }
}

/// Decimal rendering of a non-negative integer, without sign or padding.
pub open spec fn dec_text_of(n: int) -> Seq<char>
    decreases n,
{
    if n < 10 {
        seq![dec_digit_char(n)]
    } else {
        dec_text_of(n / 10).push(dec_digit_char(n % 10))
    }
}

proof fn lemma_dec_value_nonneg(s: Seq<char>)
    requires
        all_dec_digits(s),
    ensures
        dec_value(s) >= 0,
    decreases s.len(),
{
    if s.len() > 0 {
        assert(all_dec_digits(s.drop_last())) by {
            assert(forall|i: int|
                0 <= i < s.len() - 1 ==> s.drop_last()[i] == #[trigger] s[i]);
        }
        lemma_dec_value_nonneg(s.drop_last());
    }
}

/// A longer digit string never denotes a smaller value.
proof fn lemma_dec_value_prefix_le(s: Seq<char>, n: int)
    requires
        all_dec_digits(s),
        0 <= n <= s.len(),
    ensures
        dec_value(s.take(n)) <= dec_value(s),
    decreases s.len() - n,
{
    if n < s.len() {
        lemma_dec_value_prefix_le(s, n + 1);
        let t = s.take(n + 1);
        assert(t.drop_last() =~= s.take(n));
        assert(all_dec_digits(s.take(n))) by {
            assert(forall|i: int|
                0 <= i < n ==> s.take(n)[i] == #[trigger] s[i]);
        }
        lemma_dec_value_nonneg(s.take(n));
        assert(dec_value(t) == dec_value(s.take(n)) * 10 + dec_digit_value(t.last()));
        assert(dec_value(s.take(n)) <= dec_value(s.take(n)) * 10);
    } else {
        assert(s.take(n) =~= s);
    }
}

fn digit_char_of(d: u32) -> (c: char)
    requires
        d < 10,
    ensures
        c == dec_digit_char(d as int),
{
    if d == 0 {
        '0'
    } else if d == 1 {
        '1'
    } else if d == 2 {
        '2'
    } else if d == 3 {
        '3'
    } else if d == 4 {
        '4'
    } else if d == 5 {
        '5'
    } else if d == 6 {
        '6'
    } else if d == 7 {
        '7'
    } else if d == 8 {
        '8'
    } else {
        '9'
    }
}

fn dec_digit_of_char(c: char) -> (r: Option<u32>)
    ensures
        r is Some <==> is_dec_digit(c),
        r is Some ==> r->0 == dec_digit_value(c) && r->0 < 10,
{
    match c {
        '0' => Some(0),
        '1' => Some(1),
        '2' => Some(2),
        '3' => Some(3),
        '4' => Some(4),
        '5' => Some(5),
        '6' => Some(6),
        '7' => Some(7),
        '8' => Some(8),
        '9' => Some(9),
        _ => None,
    }
}

/// Reads the digits of `s` from position `from` on as a non-negative number,
/// as `i32::from_str` does after the optional sign.
fn parse_digits(s: &str, from: usize) -> (r: Option<u64>)
    requires
        from < s@.len(),
    ensures
        match r {
            Some(v) => all_dec_digits(s@.skip(from as int)) && v == dec_value(
                s@.skip(from as int),
            ) && v <= 0x8000_0000,
            None => !all_dec_digits(s@.skip(from as int)) || dec_value(s@.skip(from as int))
                > 0x8000_0000,
        },
{
    let n = s.unicode_len();
    let mut acc: u64 = 0;
    let mut i: usize = from;
    while i < n
        invariant
            from <= i <= n,
            n == s@.len(),
            all_dec_digits(s@.subrange(from as int, i as int)),
            acc == dec_value(s@.subrange(from as int, i as int)),
            acc <= 0x8000_0000,
        decreases n - i,
    {
        let c = s.get_char(i);
        match dec_digit_of_char(c) {
            Some(d) => {
                proof {
                    assert(s@.subrange(from as int, i + 1).drop_last() =~= s@.subrange(
                        from as int,
                        i as int,
                    ));
                }
                let next = acc * 10 + (d as u64);
                if next > 0x8000_0000 {
                    proof {
                        let whole = s@.skip(from as int);
                        if all_dec_digits(whole) {
                            lemma_dec_value_prefix_le(whole, i + 1 - from);
                            assert(whole.take(i + 1 - from) =~= s@.subrange(from as int, i + 1));
                        }
                    }
                    return None;
                }
                acc = next;
            },
            None => {
                assert(!is_dec_digit(s@.skip(from as int)[i - from]));
                return None;
            },
        }
        i = i + 1;
    }
    proof {
        assert(s@.subrange(from as int, n as int) =~= s@.skip(from as int));
    }
    Some(acc)
}

/// Parses a string exactly as `i32::from_str` does: optional sign, then
/// digits; `None` on anything else or on overflow.
pub fn parse_i32(s: &str) -> (r: Option<i32>)
    ensures
        r == parse_i32_text(s@),
{
    let n = s.unicode_len();
    if n == 0 {
        return None;
    }
    let first = s.get_char(0);
    if first == '-' {
        if n == 1 {
            return None;
        }
        match parse_digits(s, 1) {
            Some(v) => {
                if v == 0x8000_0000 {
                    Some(i32::MIN)
                } else {
                    Some(-(v as i32))
                }
            },
            None => None,
        }
    } else if first == '+' {
        if n == 1 {
            return None;
        }
        match parse_digits(s, 1) {
            Some(v) => {
                if v > 0x7fff_ffff {
                    None
                } else {
                    Some(v as i32)
                }
            },
            None => None,
        }
    } else {
        match parse_digits(s, 0) {
            Some(v) => {
                proof {
                    assert(s@.skip(0) =~= s@);
                }
                if v > 0x7fff_ffff {
                    None
                } else {
                    Some(v as i32)
                }
            },
            None => {
                proof {
                    assert(s@.skip(0) =~= s@);
                }
                None
            },
        }
    }
}

fn digit_text(d: u32) -> (r: &'static str)
    requires
        d < 10,
    ensures
        r@ =~= seq![dec_digit_char(d as int)],
{
    proof {
        reveal_strlit("0");
        reveal_strlit("1");
        reveal_strlit("2");
        reveal_strlit("3");
        reveal_strlit("4");
        reveal_strlit("5");
        reveal_strlit("6");
        reveal_strlit("7");
        reveal_strlit("8");
        reveal_strlit("9");
    }
    if d == 0 {
        "0"
    } else if d == 1 {
        "1"
    } else if d == 2 {
        "2"
    } else if d == 3 {
        "3"
    } else if d == 4 {
        "4"
    } else if d == 5 {
        "5"
    } else if d == 6 {
        "6"
    } else if d == 7 {
        "7"
    } else if d == 8 {
        "8"
    } else {
        "9"
    }
}

/// Renders a number in decimal, as sequence labels and score options are
/// displayed.
pub fn render_u32(n: u32) -> (r: String)
    ensures
        r@ == dec_text_of(n as int),
    decreases n,
{
    if n < 10 {
        digit_text(n).to_owned()
    } else {
        let prefix = render_u32(n / 10);
        prefix.concat(digit_text(n % 10))
    }
}

} // verus!

use vstd::prelude::*;

verus! {

/// Row-major table of the Damm quasigroup of order ten: the entry for the
/// interim digit `left` and the next digit `top` stands at `left * 10 + top`.
pub open spec fn op_table() -> Seq<u8> {
    seq![
        0, 3, 1, 7, 5, 9, 8, 6, 4, 2,
        7, 0, 9, 2, 1, 5, 4, 8, 6, 3,
        4, 2, 0, 6, 8, 7, 1, 3, 5, 9,
        1, 7, 5, 0, 9, 8, 3, 4, 2, 6,
        6, 1, 2, 3, 0, 4, 5, 9, 7, 8,
        3, 6, 7, 4, 2, 0, 9, 5, 8, 1,
        5, 8, 6, 9, 7, 2, 0, 1, 3, 4,
        8, 9, 4, 5, 3, 6, 2, 0, 1, 7,
        9, 4, 3, 8, 6, 1, 7, 2, 0, 5,
        2, 5, 8, 1, 4, 3, 6, 7, 9, 0,
    ]
}

/// One step of the check-digit fold.
pub open spec fn damm_step(interim: int, digit: int) -> int {
    op_table()[interim * 10 + digit] as int
}

/// The interim digit after folding every digit of `digits`, starting from zero.
pub open spec fn damm_fold(digits: Seq<u8>) -> int
    decreases digits.len(),
{
    if digits.len() == 0 {
        0
    } else {
        damm_step(damm_fold(digits.drop_last()), digits.last() as int)
    }
}

pub open spec fn all_decimal(digits: Seq<u8>) -> bool {
    forall|i: int| 0 <= i < digits.len() ==> digits[i] <= 9
}

pub open spec fn is_digit_char(c: char) -> bool {
    '0' <= c && c <= '9'
}

pub open spec fn all_digit_chars(s: Seq<char>) -> bool {
    forall|i: int| 0 <= i < s.len() ==> is_digit_char(s[i])
}

/// The value of an ASCII digit character.
pub open spec fn char_digit(c: char) -> u8 {
    (c as u32 - '0' as u32) as u8
}

/// The ASCII digit character of a value below ten.
pub open spec fn digit_char(d: int) -> char {
    (d + '0' as int) as char
}

pub open spec fn digits_of(s: Seq<char>) -> Seq<u8> {
    s.map_values(|c: char| char_digit(c))
}

pub open spec fn ascii_of(s: Seq<char>) -> Seq<u8> {
    s.map_values(|c: char| c as u8)
}

proof fn lemma_table_entries()
    ensures
        op_table().len() == 100,
        forall|i: int| 0 <= i < 100 ==> #[trigger] op_table()[i] <= 9,
{
    assert(op_table().len() == 100);
    assert forall|i: int| 0 <= i < 100 implies #[trigger] op_table()[i] <= 9 by {
    }
}

proof fn lemma_fold_bound(digits: Seq<u8>)
    requires
        all_decimal(digits),
    ensures
        0 <= damm_fold(digits) <= 9,
    decreases digits.len(),
{
    lemma_table_entries();
    if digits.len() > 0 {
        lemma_fold_bound(digits.drop_last());
        let k = damm_fold(digits.drop_last()) * 10 + digits.last() as int;
        assert(0 <= k < 100) by (nonlinear_arith)
            requires
                0 <= damm_fold(digits.drop_last()) <= 9,
                0 <= digits.last() <= 9,
                k == damm_fold(digits.drop_last()) * 10 + digits.last() as int,
        ;
    }
}

fn operation(top: usize, left: usize) -> (r: u8)
    requires
        top < 10,
        left < 10,
    ensures
        r as int == damm_step(left as int, top as int),
        r <= 9,
{
    let table: [u8; 100] = [
        0, 3, 1, 7, 5, 9, 8, 6, 4, 2,
        7, 0, 9, 2, 1, 5, 4, 8, 6, 3,
        4, 2, 0, 6, 8, 7, 1, 3, 5, 9,
        1, 7, 5, 0, 9, 8, 3, 4, 2, 6,
        6, 1, 2, 3, 0, 4, 5, 9, 7, 8,
        3, 6, 7, 4, 2, 0, 9, 5, 8, 1,
        5, 8, 6, 9, 7, 2, 0, 1, 3, 4,
        8, 9, 4, 5, 3, 6, 2, 0, 1, 7,
        9, 4, 3, 8, 6, 1, 7, 2, 0, 5,
        2, 5, 8, 1, 4, 3, 6, 7, 9, 0,
    ];
    proof {
        lemma_table_entries();
        assert(table@ =~= op_table());
    }
    table[left * 10 + top]
}

/// The check digit of a sequence of decimal digits (values 0 to 9, not ASCII).
pub fn check_digit(input: &[u8]) -> (r: u8)
    requires
        all_decimal(input@),
    ensures
        r as int == damm_fold(input@),
        r <= 9,
{
    let mut res: u8 = 0;
    let mut i: usize = 0;
    while i < input.len()
        invariant
            0 <= i <= input@.len(),
            all_decimal(input@),
            res as int == damm_fold(input@.subrange(0, i as int)),
            res <= 9,
        decreases input@.len() - i,
    {
        proof {
            assert(input@.subrange(0, i as int + 1).drop_last() =~= input@.subrange(0, i as int));
        }
        let digit = input[i];
        res = operation(digit as usize, res as usize);
        i = i + 1;
    }
    proof {
        assert(input@.subrange(0, i as int) =~= input@);
    }
    res
}

/// The string of the one ASCII digit `d`.
pub(crate) fn digit_str(d: u8) -> (r: &'static str)
    requires
        d <= 9,
    ensures
        r@ == seq![digit_char(d as int)],
{
    proof {
        reveal_strlit("0");
        reveal_strlit("1");
        reveal_strlit("2");
        reveal_strlit("3");
        reveal_strlit("4");
        reveal_strlit("5");
        reveal_strlit("6");
        reveal_strlit("7");
        reveal_strlit("8");
        reveal_strlit("9");
    }
    let r = match d {
        0 => "0",
        1 => "1",
        2 => "2",
        3 => "3",
        4 => "4",
        5 => "5",
        6 => "6",
        7 => "7",
        8 => "8",
        _ => "9",
    };
    assert(r@ =~= seq![digit_char(d as int)]);
    r
}

/// Reads the decimal digits of `s`, or `None` where it holds anything else.
fn decimal_digits(s: &str) -> (r: Option<Vec<u8>>)
    ensures
        r is Some <==> all_digit_chars(s@),
        r is Some ==> r->0@ == digits_of(s@) && all_decimal(r->0@),
{
    let n = s.unicode_len();
    let mut digits: Vec<u8> = Vec::new();
    let mut i: usize = 0;
    while i < n
        invariant
            n == s@.len(),
            0 <= i <= n,
            digits@ == digits_of(s@.subrange(0, i as int)),
            all_digit_chars(s@.subrange(0, i as int)),
            all_decimal(digits@),
        decreases n - i,
    {
        let c = s.get_char(i);
        if '0' <= c && c <= '9' {
            digits.push(((c as u32) - ('0' as u32)) as u8);
            proof {
                assert(s@.subrange(0, i as int + 1) =~= s@.subrange(0, i as int).push(c));
                assert(digits@ =~= digits_of(s@.subrange(0, i as int + 1)));
            }
            i = i + 1;
        } else {
            proof {
                assert(!is_digit_char(s@[i as int]));
            }
            return None;
        }
    }
    proof {
        assert(s@.subrange(0, i as int) =~= s@);
    }
    Some(digits)
}

/// Appends the check digit to a string of decimal digits.
pub fn add_to_str(s: String) -> (r: String)
    requires
        all_digit_chars(s@),
    ensures
        r@ == s@.push(digit_char(damm_fold(digits_of(s@)))),
{
    let digits = match decimal_digits(s.as_str()) {
        Some(d) => d,
        None => {
            proof {
                assert(false);
            }
            Vec::new()
        },
    };
    let cd = check_digit(digits.as_slice());
    let mut out = s;
    out.append(digit_str(cd));
    proof {
        assert(out@ =~= s@.push(digit_char(damm_fold(digits_of(s@)))));
    }
    out
}

/// Checks a string of decimal digits whose last digit is its check digit. On
/// success the digits (values 0 to 9) without the check digit are returned.
pub fn validate(s: &str) -> (r: Option<Vec<u8>>)
    ensures
        r is Some <==> all_digit_chars(s@) && damm_fold(digits_of(s@)) == 0,
        r is Some ==> r->0@ == strip_last(digits_of(s@)),
{
    match decimal_digits(s) {
        None => None,
        Some(digits) => {
            let mut digits = digits;
            if check_digit(digits.as_slice()) == 0 {
                if digits.len() > 0 {
                    digits.pop();
                }
                Some(digits)
            } else {
                None
            }
        },
    }
}

/// Like `validate`, but the digits come back as ASCII characters.
pub fn validate_ascii(s: &str) -> (r: Option<Vec<u8>>)
    ensures
        r is Some <==> all_digit_chars(s@) && damm_fold(digits_of(s@)) == 0,
        r is Some ==> r->0@ == strip_last(ascii_of(s@)),
{
    match decimal_digits(s) {
        None => None,
        Some(digits) => {
            if check_digit(digits.as_slice()) == 0 {
                let n = s.unicode_len();
                let mut ascii: Vec<u8> = Vec::new();
                let mut i: usize = 0;
                while i < n
                    invariant
                        n == s@.len(),
                        0 <= i <= n,
                        ascii@ == ascii_of(s@.subrange(0, i as int)),
                    decreases n - i,
                {
                    let c = s.get_char(i);
                    ascii.push(c as u8);
                    proof {
                        assert(s@.subrange(0, i as int + 1) =~= s@.subrange(0, i as int).push(c));
                        assert(ascii@ =~= ascii_of(s@.subrange(0, i as int + 1)));
                    }
                    i = i + 1;
                }
                proof {
                    assert(s@.subrange(0, i as int) =~= s@);
                }
                if ascii.len() > 0 {
                    ascii.pop();
                }
                Some(ascii)
            } else {
                None
            }
        },
    }
}

/// A sequence without its last element; the empty sequence stays empty.
pub open spec fn strip_last<T>(s: Seq<T>) -> Seq<T> {
    if s.len() == 0 {
        s
    } else {
        s.drop_last()
    }
}

/// The number written by a sequence of ASCII digits, most significant first.
pub open spec fn ascii_value(s: Seq<u8>) -> nat
    decreases s.len(),
{
    if s.len() == 0 {
        0
    } else {
        ascii_value(s.drop_last()) * 10 + (s.last() - 48) as nat
    }
}

pub open spec fn all_ascii_digits(s: Seq<u8>) -> bool {
    forall|i: int| 0 <= i < s.len() ==> 48 <= #[trigger] s[i] <= 57
}

/// Relies on `atoi::atoi::<i64>`: on a non-empty run of ASCII digits it
/// returns their value, or `None` where the value passes `i64::MAX`; on an
/// empty slice it returns `None`.
#[verifier::external_body]
fn atoi_i64(digits: &[u8]) -> (r: Option<i64>)
    requires
        all_ascii_digits(digits@),
    ensures
        digits@.len() == 0 ==> r is None,
        digits@.len() > 0 ==> (r is Some <==> ascii_value(digits@) <= i64::MAX),
        r is Some ==> r->0 as int == ascii_value(digits@),
{
    atoi::atoi::<i64>(digits)
}

/// Reads a public id: decimal digits ending in their check digit. Gives the
/// number without the check digit, or `None` where the text is no such id,
/// holds no digit besides the check digit, or names a number past `i64::MAX`.
pub fn parse_damm_id(s: &str) -> (r: Option<i64>)
    ensures
        ({
            let digits = strip_last(ascii_of(s@));
            r == if all_digit_chars(s@) && damm_fold(digits_of(s@)) == 0 && digits.len() > 0
                && ascii_value(digits) <= i64::MAX {
                Some(ascii_value(digits) as i64)
            } else {
                None::<i64>
            }
        }),
{
    match validate_ascii(s) {
        Some(digits) => {
            proof {
                assert forall|i: int| 0 <= i < digits@.len() implies 48 <= #[trigger] digits@[i] <= 57 by {
                    assert(is_digit_char(s@[i]));
                }
            }
            let r = atoi_i64(digits.as_slice());
            r
        },
        None => None,
    }
}

} // verus!

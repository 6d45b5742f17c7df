use vstd::prelude::*;

use crate::text::{ascii_digits, digits_value, read_digits, same_text};

verus! {

pub open spec fn is_yes_word(w: Seq<char>) -> bool {
    w == "favor"@
        || w == "for"@
        || w == "approve"@
        || w == "yes"@
        || w == "y"@
        || w == "aye"@
        || w == "yeah"@
        || w == "yeah!"@
        || w == "\u{1ff4d}"@
        || w == ":+1:"@
        || w == ":thumbsup:"@
        || w == "\u{1f646}"@
        || w == ":ok_woman:"@
        || w == "\u{2b55}"@
        || w == ":o:"@
        || w == "\u{1f44c}"@
        || w == ":ok_hand:"@
        || w == "\u{1f197}"@
        || w == ":ok:"@
        || w == "\u{2705}"@
        || w == "pass"@
}

pub open spec fn is_no_word(w: Seq<char>) -> bool {
    w == "neigh"@
        || w == "fail"@
        || w == "no"@
        || w == "against"@
        || w == "nay"@
        || w == "no, asshole"@
        || w == "no, you wanker"@
        || w == "no, cunt"@
        || w == "negative"@
        || w == "never"@
        || w == "negatory"@
        || w == "veto"@
        || w == "\u{1f44e}"@
        || w == "deny"@
        || w == ":-1:"@
        || w == ":thumbsdown:"@
        || w == ".i na go'i"@
        || w == "\u{1f645}"@
        || w == ":no_good:"@
        || w == "\u{274C}"@
        || w == "\u{1f196}"@
        || w == ":ng:"@
        || w == "naw"@
}

pub open spec fn is_zero_word(w: Seq<char>) -> bool {
    w == "zero"@
        || w == "zerovote"@
        || w == "nil"@
        || w == "nada"@
        || w == "nothing"@
}

pub open spec fn is_ignored_word(w: Seq<char>) -> bool {
    w == "in"@
        || w == "i"@
        || w == "I"@
        || w == "think"@
        || w == "say"@
        || w == "fuck"@
        || w == "hell"@
}

fn yes_word(w: &str) -> (r: bool)
    ensures
        r == is_yes_word(w@),
{
    same_text(w, "favor")
        || same_text(w, "for")
        || same_text(w, "approve")
        || same_text(w, "yes")
        || same_text(w, "y")
        || same_text(w, "aye")
        || same_text(w, "yeah")
        || same_text(w, "yeah!")
        || same_text(w, "\u{1ff4d}")
        || same_text(w, ":+1:")
        || same_text(w, ":thumbsup:")
        || same_text(w, "\u{1f646}")
        || same_text(w, ":ok_woman:")
        || same_text(w, "\u{2b55}")
        || same_text(w, ":o:")
        || same_text(w, "\u{1f44c}")
        || same_text(w, ":ok_hand:")
        || same_text(w, "\u{1f197}")
        || same_text(w, ":ok:")
        || same_text(w, "\u{2705}")
        || same_text(w, "pass")
}

fn no_word(w: &str) -> (r: bool)
    ensures
        r == is_no_word(w@),
{
    same_text(w, "neigh")
        || same_text(w, "fail")
        || same_text(w, "no")
        || same_text(w, "against")
        || same_text(w, "nay")
        || same_text(w, "no, asshole")
        || same_text(w, "no, you wanker")
        || same_text(w, "no, cunt")
        || same_text(w, "negative")
        || same_text(w, "never")
        || same_text(w, "negatory")
        || same_text(w, "veto")
        || same_text(w, "\u{1f44e}")
        || same_text(w, "deny")
        || same_text(w, ":-1:")
        || same_text(w, ":thumbsdown:")
        || same_text(w, ".i na go'i")
        || same_text(w, "\u{1f645}")
        || same_text(w, ":no_good:")
        || same_text(w, "\u{274C}")
        || same_text(w, "\u{1f196}")
        || same_text(w, ":ng:")
        || same_text(w, "naw")
}

fn zero_word(w: &str) -> (r: bool)
    ensures
        r == is_zero_word(w@),
{
    same_text(w, "zero")
        || same_text(w, "zerovote")
        || same_text(w, "nil")
        || same_text(w, "nada")
        || same_text(w, "nothing")
}

fn ignored_word(w: &str) -> (r: bool)
    ensures
        r == is_ignored_word(w@),
{
    same_text(w, "in")
        || same_text(w, "i")
        || same_text(w, "I")
        || same_text(w, "think")
        || same_text(w, "say")
        || same_text(w, "fuck")
        || same_text(w, "hell")
}

/// What `u32`'s `FromStr` reads: an optional `+` and then decimal digits,
/// up to `u32::MAX`.
pub open spec fn u32_value(s: Seq<char>) -> Option<nat> {
    let d = if s.len() > 0 && s[0] == '+' {
        s.subrange(1, s.len() as int)
    } else {
        s
    };
    if ascii_digits(d) && digits_value(d) <= u32::MAX {
        Some(digits_value(d))
    } else {
        None
    }
}

pub fn parse_u32(s: &str) -> (r: Option<u32>)
    ensures
        r is Some <==> u32_value(s@) is Some,
        r is Some ==> r->0 as nat == u32_value(s@)->0,
{
    let n = s.unicode_len();
    let from: usize = if n > 0 && s.get_char(0) == '+' { 1 } else { 0 };
    proof {
        if from == 0 {
            assert(s@.subrange(0, s@.len() as int) =~= s@);
        }
    }
    match read_digits(s, from) {
        Some(v) => if v <= u32::MAX as i64 {
            Some(v as u32)
        } else {
            None
        },
        None => None,
    }
}

/// A bad word among the vote arguments.
#[derive(Clone, Copy, Debug, PartialEq, Eq, Structural)]
pub enum VoteArgError {
    BadCount,
}

/// The direction and count that the words of a vote command ask for, read
/// left to right from one vote and no direction: a yes or no word sets the
/// direction, a zero word sets the count to zero, filler words are skipped,
/// and anything else must be a count.
pub open spec fn vote_request(args: Seq<Seq<char>>) -> Option<(Option<bool>, int)>
    decreases args.len(),
{
    if args.len() == 0 {
        Some((None, 1))
    } else {
        match vote_request(args.drop_last()) {
            None => None,
            Some(prev) => {
                let w = args.last();
                if is_yes_word(w) {
                    Some((Some(true), prev.1))
                } else if is_no_word(w) {
                    Some((Some(false), prev.1))
                } else if is_zero_word(w) {
                    Some((prev.0, 0))
                } else if is_ignored_word(w) {
                    Some(prev)
                } else {
                    match u32_value(w) {
                        Some(v) => Some((prev.0, v as int)),
                        None => None,
                    }
                }
            },
        }
    }
}

pub open spec fn texts(args: Seq<String>) -> Seq<Seq<char>> {
    args.map_values(|s: String| s@)
}

/// Reads the words after the motion id of a vote command.
pub fn vote_args(args: &Vec<String>) -> (r: Result<(Option<bool>, i64), VoteArgError>)
    ensures
        r is Ok <==> vote_request(texts(args@)) is Some,
        r is Ok ==> (r->Ok_0).0 == (vote_request(texts(args@))->0).0 && (r->Ok_0).1 as int == (vote_request(
            texts(args@),
        )->0).1,
{
    let mut direction: Option<bool> = None;
    let mut count: i64 = 1;
    let mut i: usize = 0;
    while i < args.len()
        invariant
            0 <= i <= args@.len(),
            vote_request(texts(args@.subrange(0, i as int))) == Some((direction, count as int)),
            0 <= count <= u32::MAX,
        decreases args@.len() - i,
    {
        let w = args[i].as_str();
        proof {
            assert(texts(args@.subrange(0, i as int + 1)).drop_last() =~= texts(args@.subrange(0, i as int)));
            assert(texts(args@.subrange(0, i as int + 1)).last() == w@);
        }
        if yes_word(w) {
            direction = Some(true);
        } else if no_word(w) {
            direction = Some(false);
        } else if zero_word(w) {
            count = 0;
        } else if ignored_word(w) {
        } else {
            match parse_u32(w) {
                Some(v) => {
                    count = v as i64;
                },
                None => {
                    proof {
                        lemma_vote_request_stops(texts(args@), i as int + 1);
                        assert(texts(args@).subrange(0, i as int + 1) =~= texts(args@.subrange(0, i as int + 1)));
                    }
                    return Err(VoteArgError::BadCount);
                },
            }
        }
        i = i + 1;
    }
    proof {
        assert(args@.subrange(0, i as int) =~= args@);
    }
    Ok((direction, count))
}

proof fn lemma_vote_request_stops(args: Seq<Seq<char>>, n: int)
    requires
        0 <= n <= args.len(),
        vote_request(args.subrange(0, n)) is None,
    ensures
        vote_request(args) is None,
    decreases args.len() - n,
{
    if n < args.len() {
        assert(args.subrange(0, n + 1).drop_last() =~= args.subrange(0, n));
        lemma_vote_request_stops(args, n + 1);
    } else {
        assert(args.subrange(0, n) =~= args);
    }
}

/// A bad amount word of a give command.
#[derive(Clone, Copy, Debug, PartialEq, Eq, Structural)]
pub enum GiveArgError {
    /// The word starts with neither a digit nor a known currency.
    InvalidType,
    /// The count does not fit an `i64`, or is missing.
    BadCount,
}

pub open spec fn is_first_non_digit(s: Seq<char>, p: int) -> bool {
    0 <= p <= s.len() && (forall|i: int| 0 <= i < p ==> '0' <= #[trigger] s[i] && s[i] <= '9') && (p
        == s.len() || !('0' <= s[p] && s[p] <= '9'))
}

/// What an amount word of a give command reads as, where it is no currency
/// alias itself: a count, optionally followed at once by a currency alias.
pub open spec fn amount_word(s: Seq<char>) -> Result<(nat, Option<Seq<char>>), GiveArgError> {
    let p = choose|p: int| #[trigger] is_first_non_digit(s, p);
    if p == 0 && s.len() > 0 {
        Err(GiveArgError::InvalidType)
    } else if !ascii_digits(s.subrange(0, p)) || digits_value(s.subrange(0, p)) > i64::MAX {
        Err(GiveArgError::BadCount)
    } else {
        Ok(
            (
                digits_value(s.subrange(0, p)),
                if p < s.len() {
                    Some(s.subrange(p, s.len() as int))
                } else {
                    None
                },
            ),
        )
    }
}

/// Reads an amount word of a give command (see `amount_word`).
pub fn split_amount(arg: &str) -> (r: Result<(i64, Option<String>), GiveArgError>)
    ensures
        r is Ok <==> amount_word(arg@) is Ok,
        r is Err ==> r->Err_0 == amount_word(arg@)->Err_0,
        r is Ok ==> {
            let (count, ty) = amount_word(arg@)->Ok_0;
            &&& (r->Ok_0).0 as int == count
            &&& match ty {
                Some(t) => (r->Ok_0).1 is Some && (r->Ok_0).1->0@ == t,
                None => (r->Ok_0).1 is None,
            }
        },
{
    let ghost t = arg@;
    let n = arg.unicode_len();
    let mut p: usize = 0;
    while p < n && '0' <= arg.get_char(p) && arg.get_char(p) <= '9'
        invariant
            t == arg@,
            n == t.len(),
            0 <= p <= n,
            forall|i: int| 0 <= i < p ==> '0' <= #[trigger] t[i] && t[i] <= '9',
        decreases n - p,
    {
        p = p + 1;
    }
    proof {
        assert(is_first_non_digit(t, p as int));
        assert forall|q: int| #[trigger] is_first_non_digit(t, q) implies q == p by {
            if q < p {
                assert('0' <= t[q] && t[q] <= '9');
            } else if q > p {
                assert('0' <= t[p as int] && t[p as int] <= '9');
            }
        }
    }
    if p == 0 && n > 0 {
        return Err(GiveArgError::InvalidType);
    }
    let head = arg.substring_char(0, p);
    let count = match read_digits(head, 0) {
        Some(v) => v,
        None => {
            proof {
                assert(head@.subrange(0, head@.len() as int) =~= head@);
            }
            return Err(GiveArgError::BadCount);
        },
    };
    proof {
        assert(head@.subrange(0, head@.len() as int) =~= head@);
    }
    if p < n {
        let rest = arg.substring_char(p, n);
        Ok((count, Some(String::from_str(rest))))
    } else {
        Ok((count, None))
    }
}

} // verus!

use vstd::prelude::*;

verus! {

/// Whether two texts hold the same characters.
pub(crate) fn same_text(a: &str, b: &str) -> (r: bool)
    ensures
        r == (a@ == b@),
{
    let n = a.unicode_len();
    if n != b.unicode_len() {
        return false;
    }
    let mut i: usize = 0;
    while i < n
        invariant
            n == a@.len() == b@.len(),
            0 <= i <= n,
            forall|j: int| 0 <= j < i ==> a@[j] == b@[j],
        decreases n - i,
    {
        if a.get_char(i) != b.get_char(i) {
            return false;
        }
        i = i + 1;
    }
    proof {
        assert(a@ =~= b@);
    }
    true
}

/// White space, as Unicode's White_Space property has it.
pub open spec fn is_ws(c: char) -> bool {
    ('\u{9}' <= c && c <= '\u{d}') || c == ' ' || c == '\u{85}' || c == '\u{a0}' || c == '\u{1680}'
        || ('\u{2000}' <= c && c <= '\u{200a}') || c == '\u{2028}' || c == '\u{2029}' || c == '\u{202f}'
        || c == '\u{205f}' || c == '\u{3000}'
}

pub open spec fn all_ws(s: Seq<char>) -> bool {
    forall|i: int| 0 <= i < s.len() ==> is_ws(#[trigger] s[i])
}

pub open spec fn ascii_digits(s: Seq<char>) -> bool {
    s.len() > 0 && forall|i: int| 0 <= i < s.len() ==> '0' <= #[trigger] s[i] && s[i] <= '9'
}

/// The number that a run of ASCII digits writes, most significant first.
pub open spec fn digits_value(s: Seq<char>) -> nat
    decreases s.len(),
{
    if s.len() == 0 {
        0
    } else {
        digits_value(s.drop_last()) * 10 + (s.last() as u32 - '0' as u32) as nat
    }
}

pub(crate) fn is_ws_exec(c: char) -> (r: bool)
    ensures
        r == is_ws(c),
{
    ('\u{9}' <= c && c <= '\u{d}') || c == ' ' || c == '\u{85}' || c == '\u{a0}' || c == '\u{1680}'
        || ('\u{2000}' <= c && c <= '\u{200a}') || c == '\u{2028}' || c == '\u{2029}' || c == '\u{202f}'
        || c == '\u{205f}' || c == '\u{3000}'
}

proof fn lemma_digits_value_prefix(s: Seq<char>, k: int)
    requires
        0 <= k <= s.len(),
    ensures
        digits_value(s.subrange(0, k)) <= digits_value(s),
    decreases s.len() - k,
{
    if k < s.len() {
        lemma_digits_value_prefix(s, k + 1);
        let t = s.subrange(0, k + 1);
        assert(t.drop_last() =~= s.subrange(0, k));
    } else {
        assert(s.subrange(0, k) =~= s);
    }
}

/// Reads the ASCII digits `s[from..]` as an `i64`, or `None` where they are
/// not all digits, are none, or pass `i64::MAX`.
pub(crate) fn read_digits(s: &str, from: usize) -> (r: Option<i64>)
    requires
        from <= s@.len(),
    ensures
        ({
            let d = s@.subrange(from as int, s@.len() as int);
            r == if ascii_digits(d) && digits_value(d) <= i64::MAX {
                Some(digits_value(d) as i64)
            } else {
                None::<i64>
            }
        }),
{
    let ghost d = s@.subrange(from as int, s@.len() as int);
    let n = s.unicode_len();
    if from == n {
        return None;
    }
    let mut acc: i64 = 0;
    let mut j: usize = from;
    while j < n
        invariant
            n == s@.len(),
            from <= j <= n,
            d == s@.subrange(from as int, n as int),
            forall|i: int| from <= i < j ==> '0' <= #[trigger] s@[i] && s@[i] <= '9',
            acc as int == digits_value(s@.subrange(from as int, j as int)),
        decreases n - j,
    {
        let c = s.get_char(j);
        if !('0' <= c && c <= '9') {
            proof {
                assert(d[j - from] == c);
            }
            return None;
        }
        let v = (c as u32 - '0' as u32) as i64;
        proof {
            let t = s@.subrange(from as int, j as int + 1);
            assert(t.drop_last() =~= s@.subrange(from as int, j as int));
            assert(digits_value(t) == acc * 10 + v);
        }
        if acc > (i64::MAX - v) / 10 {
            proof {
                assert(acc * 10 + v > i64::MAX) by (nonlinear_arith)
                    requires
                        acc > (i64::MAX - v) / 10,
                        0 <= v <= 9,
                ;
                assert(d.subrange(0, j - from + 1) =~= s@.subrange(from as int, j as int + 1));
                lemma_digits_value_prefix(d, j - from + 1);
            }
            return None;
        }
        proof {
            assert(acc * 10 + v <= i64::MAX) by (nonlinear_arith)
                requires
                    acc <= (i64::MAX - v) / 10,
                    0 <= v <= 9,
            ;
        }
        acc = acc * 10 + v;
        j = j + 1;
    }
    proof {
        assert(s@.subrange(from as int, j as int) =~= d);
        assert forall|i: int| 0 <= i < d.len() implies '0' <= #[trigger] d[i] && d[i] <= '9' by {
            assert(d[i] == s@[from + i]);
        }
    }
    Some(acc)
}

} // verus!

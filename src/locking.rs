use vstd::prelude::*;

use crate::ledger::TransactionBuilder;
use crate::models::{CurrencyId, UserId};

verus! {

/// Whether some currency of `s` is `c`.
pub open spec fn mentions(s: Seq<CurrencyId>, c: Seq<char>) -> bool {
    exists|i: int| 0 <= i < s.len() && s[i]@ == c
}

/// Whether `(u, c)` stands in the list of pairs `s`.
pub open spec fn lists_pair(s: Seq<(UserId, CurrencyId)>, u: UserId, c: Seq<char>) -> bool {
    exists|i: int| 0 <= i < s.len() && s[i].0 == u && s[i].1@ == c
}

pub open spec fn strictly_ascending(s: Seq<UserId>) -> bool {
    forall|i: int, j: int| 0 <= i < j < s.len() ==> s[i].0 < s[j].0
}

/// The users of `users`, each once, in ascending id order.
fn sorted_users(users: &Vec<UserId>) -> (r: Vec<UserId>)
    ensures
        strictly_ascending(r@),
        forall|u: UserId| r@.contains(u) <==> users@.contains(u),
{
    let mut out: Vec<UserId> = Vec::new();
    let mut i: usize = 0;
    while i < users.len()
        invariant
            0 <= i <= users@.len(),
            strictly_ascending(out@),
            forall|u: UserId| out@.contains(u) <==> users@.subrange(0, i as int).contains(u),
        decreases users@.len() - i,
    {
        let u = users[i];
        let mut j: usize = 0;
        while j < out.len() && out[j].0 < u.0
            invariant
                0 <= j <= out@.len(),
                forall|k: int| 0 <= k < j ==> out@[k].0 < u.0,
            decreases out@.len() - j,
        {
            j = j + 1;
        }
        let ghost before = out@;
        if j < out.len() && out[j].0 == u.0 {
            proof {
                assert(out@[j as int] == u);
                assert(before.contains(u));
                assert forall|v: UserId| out@.contains(v) <==> before.contains(v) || v == u by {
                }
            }
        } else {
            out.insert(j, u);
            proof {
                assert forall|a: int, b: int| 0 <= a < b < out@.len() implies out@[a].0 < out@[b].0 by {
                    if b < j {
                    } else if a < j && b == j {
                    } else if a < j {
                        assert(out@[b] == before[b - 1]);
                    } else if a == j {
                        assert(out@[b] == before[b - 1]);
                        assert(before[j as int].0 >= u.0);
                        if b - 1 > j {
                            assert(before[j as int].0 < before[b - 1].0);
                        }
                    } else {
                        assert(out@[a] == before[a - 1]);
                        assert(out@[b] == before[b - 1]);
                    }
                }
                assert forall|v: UserId| out@.contains(v) <==> before.contains(v) || v == u by {
                    if out@.contains(v) {
                        let k = choose|k: int| 0 <= k < out@.len() && out@[k] == v;
                        if k < j {
                            assert(before[k] == v);
                        } else if k > j {
                            assert(before[k - 1] == v);
                        }
                    }
                    if before.contains(v) {
                        let k = choose|k: int| 0 <= k < before.len() && before[k] == v;
                        if k < j {
                            assert(out@[k] == v);
                        } else {
                            assert(out@[k + 1] == v);
                        }
                    }
                    if v == u {
                        assert(out@[j as int] == v);
                    }
                }
            }
        }
        proof {
            let p = users@.subrange(0, i as int + 1);
            let q = users@.subrange(0, i as int);
            assert(p =~= q.push(u));
            assert forall|v: UserId| out@.contains(v) <==> p.contains(v) by {
                assert(out@.contains(v) <==> before.contains(v) || v == u);
                assert(before.contains(v) <==> q.contains(v));
                if p.contains(v) {
                    let k = choose|k: int| 0 <= k < p.len() && p[k] == v;
                    if k < i {
                        assert(q[k] == v);
                    }
                }
                if q.contains(v) {
                    let k = choose|k: int| 0 <= k < q.len() && q[k] == v;
                    assert(p[k] == v);
                }
                if v == u {
                    assert(p[i as int] == v);
                }
            }
        }
        i = i + 1;
    }
    proof {
        assert(users@.subrange(0, i as int) =~= users@);
    }
    out
}

/// Lexicographic order on currency codes, character by character.
pub open spec fn lex_lt(a: Seq<char>, b: Seq<char>) -> bool
    decreases a.len(),
{
    if a.len() == 0 {
        b.len() > 0
    } else if b.len() == 0 {
        false
    } else if a[0] != b[0] {
        a[0] < b[0]
    } else {
        lex_lt(a.drop_first(), b.drop_first())
    }
}

proof fn lemma_lex_irreflexive(a: Seq<char>)
    ensures
        !lex_lt(a, a),
    decreases a.len(),
{
    if a.len() > 0 {
        lemma_lex_irreflexive(a.drop_first());
    }
}

proof fn lemma_lex_transitive(a: Seq<char>, b: Seq<char>, c: Seq<char>)
    requires
        lex_lt(a, b),
        lex_lt(b, c),
    ensures
        lex_lt(a, c),
    decreases a.len(),
{
    if a.len() > 0 && b.len() > 0 && c.len() > 0 && a[0] == b[0] && b[0] == c[0] {
        lemma_lex_transitive(a.drop_first(), b.drop_first(), c.drop_first());
    }
}

proof fn lemma_lex_total(a: Seq<char>, b: Seq<char>)
    requires
        a != b,
    ensures
        lex_lt(a, b) || lex_lt(b, a),
    decreases a.len(),
{
    if a.len() > 0 && b.len() > 0 && a[0] == b[0] {
        if a.drop_first() == b.drop_first() {
            assert(a =~= seq![a[0]] + a.drop_first());
            assert(b =~= seq![b[0]] + b.drop_first());
        }
        lemma_lex_total(a.drop_first(), b.drop_first());
    } else if a.len() == 0 && b.len() == 0 {
        assert(a =~= b);
    }
}

fn currency_lt(a: &CurrencyId, b: &CurrencyId) -> (r: bool)
    ensures
        r == lex_lt(a@, b@),
{
    let x = a.as_str();
    let y = b.as_str();
    let nx = x.unicode_len();
    let ny = y.unicode_len();
    let mut i: usize = 0;
    proof {
        assert(x@.subrange(0, nx as int) =~= x@);
        assert(y@.subrange(0, ny as int) =~= y@);
    }
    while i < nx && i < ny && x.get_char(i) == y.get_char(i)
        invariant
            x@ == a@,
            y@ == b@,
            nx == x@.len(),
            ny == y@.len(),
            0 <= i <= nx,
            i <= ny,
            lex_lt(a@, b@) == lex_lt(x@.subrange(i as int, nx as int), y@.subrange(i as int, ny as int)),
        decreases nx - i,
    {
        proof {
            let p = x@.subrange(i as int, nx as int);
            let q = y@.subrange(i as int, ny as int);
            assert(p.drop_first() =~= x@.subrange(i + 1, nx as int));
            assert(q.drop_first() =~= y@.subrange(i + 1, ny as int));
        }
        i = i + 1;
    }
    if i == nx {
        i < ny
    } else if i == ny {
        false
    } else {
        x.get_char(i) < y.get_char(i)
    }
}

pub open spec fn lex_ascending(s: Seq<CurrencyId>) -> bool {
    forall|i: int, j: int| 0 <= i < j < s.len() ==> lex_lt(s[i]@, s[j]@)
}

/// The currencies of `currencies`, each once, in ascending order of code.
fn sorted_currencies(currencies: &Vec<CurrencyId>) -> (r: Vec<CurrencyId>)
    ensures
        lex_ascending(r@),
        forall|c: Seq<char>| #[trigger] mentions(r@, c) <==> mentions(currencies@, c),
{
    let mut out: Vec<CurrencyId> = Vec::new();
    let mut i: usize = 0;
    while i < currencies.len()
        invariant
            0 <= i <= currencies@.len(),
            lex_ascending(out@),
            forall|c: Seq<char>| #[trigger] mentions(out@, c) <==> mentions(currencies@.subrange(0, i as int), c),
        decreases currencies@.len() - i,
    {
        let c = &currencies[i];
        let mut j: usize = 0;
        while j < out.len() && currency_lt(&out[j], c)
            invariant
                0 <= j <= out@.len(),
                forall|k: int| 0 <= k < j ==> lex_lt(out@[k]@, c@),
            decreases out@.len() - j,
        {
            j = j + 1;
        }
        let ghost before = out@;
        let ghost cv = c@;
        if j < out.len() && out[j].same(c) {
            proof {
                assert(mentions(before, cv));
            }
        } else {
            out.insert(j, c.clone());
            proof {
                if j < before.len() {
                    assert(!lex_lt(before[j as int]@, cv));
                    lemma_lex_total(before[j as int]@, cv);
                }
                assert forall|a: int, b: int| 0 <= a < b < out@.len() implies lex_lt(out@[a]@, out@[b]@) by {
                    if b < j {
                    } else if b == j {
                        assert(out@[b]@ == cv);
                    } else if a < j {
                        assert(out@[b] == before[b - 1]);
                        assert(out@[j as int]@ == cv);
                        if b - 1 > j {
                            lemma_lex_transitive(cv, before[j as int]@, before[b - 1]@);
                        }
                        lemma_lex_transitive(out@[a]@, cv, out@[b]@);
                    } else if a == j {
                        assert(out@[b] == before[b - 1]);
                        assert(out@[a]@ == cv);
                        if b - 1 > j {
                            lemma_lex_transitive(cv, before[j as int]@, before[b - 1]@);
                        }
                    } else {
                        assert(out@[a] == before[a - 1]);
                        assert(out@[b] == before[b - 1]);
                    }
                }
            }
        }
        proof {
            let p = currencies@.subrange(0, i as int + 1);
            let q = currencies@.subrange(0, i as int);
            assert(p =~= q.push(currencies@[i as int]));
            assert forall|x: Seq<char>| #[trigger] mentions(out@, x) <==> mentions(p, x) by {
                if mentions(out@, x) {
                    let k = choose|k: int| 0 <= k < out@.len() && out@[k]@ == x;
                    if x == cv {
                        assert(p[i as int]@ == x);
                    } else {
                        if k < j {
                            assert(before[k]@ == x);
                        } else if out@.len() == before.len() {
                            assert(before[k]@ == x);
                        } else if k > j {
                            assert(before[k - 1]@ == x);
                        }
                        assert(mentions(before, x));
                        assert(mentions(q, x));
                        let k2 = choose|k2: int| 0 <= k2 < q.len() && q[k2]@ == x;
                        assert(p[k2]@ == x);
                    }
                }
                if mentions(p, x) {
                    let k = choose|k: int| 0 <= k < p.len() && p[k]@ == x;
                    if k == i {
                        if out@.len() == before.len() {
                            assert(mentions(before, cv));
                        } else {
                            assert(out@[j as int]@ == x);
                        }
                    } else {
                        assert(q[k]@ == x);
                        assert(mentions(before, x));
                        let k2 = choose|k2: int| 0 <= k2 < before.len() && before[k2]@ == x;
                        if out@.len() == before.len() {
                            assert(out@[k2]@ == x);
                        } else if k2 < j {
                            assert(out@[k2]@ == x);
                        } else {
                            assert(out@[k2 + 1]@ == x);
                        }
                    }
                }
            }
        }
        i = i + 1;
    }
    proof {
        assert(currencies@.subrange(0, i as int) =~= currencies@);
    }
    out
}

/// Whether the pair `a` is locked before the pair `b`: by user id, then by
/// currency code.
pub open spec fn in_lock_order(a: (UserId, CurrencyId), b: (UserId, CurrencyId)) -> bool {
    a.0.0 < b.0.0 || (a.0 == b.0 && lex_lt(a.1@, b.1@))
}

/// The order in which a transaction locks the balances it touches: every
/// (user, currency) pair once, by user id, then by currency code. Every
/// caller locks in this one order, so two transactions never wait on each
/// other in a cycle.
pub fn lock_order(users: &Vec<UserId>, currencies: &Vec<CurrencyId>) -> (r: Vec<(UserId, CurrencyId)>)
    ensures
        forall|u: UserId, c: Seq<char>|
            #[trigger] lists_pair(r@, u, c) <==> (users@.contains(u) && mentions(currencies@, c)),
        forall|i: int, j: int| 0 <= i < j < r@.len() ==> in_lock_order(r@[i], r@[j]),
        forall|i: int, j: int|
            0 <= i < j < r@.len() ==> (r@[i].0, r@[i].1@) != (r@[j].0, r@[j].1@),
{
    let us = sorted_users(users);
    let cs = sorted_currencies(currencies);
    let mut out: Vec<(UserId, CurrencyId)> = Vec::new();
    let mut i: usize = 0;
    while i < us.len()
        invariant
            0 <= i <= us@.len(),
            strictly_ascending(us@),
            lex_ascending(cs@),
            forall|u: UserId, c: Seq<char>|
                #[trigger] lists_pair(out@, u, c) <==> (us@.subrange(0, i as int).contains(u) && mentions(cs@, c)),
            forall|k: int, m: int| 0 <= k < out@.len() && i <= m < us@.len() ==> out@[k].0.0 < us@[m].0,
            forall|a: int, b: int| 0 <= a < b < out@.len() ==> in_lock_order(out@[a], out@[b]),
            forall|a: int, b: int|
                0 <= a < b < out@.len() ==> (out@[a].0, out@[a].1@) != (out@[b].0, out@[b].1@),
        decreases us@.len() - i,
    {
        let ghost start = out@.len();
        let ghost before = out@;
        let mut j: usize = 0;
        while j < cs.len()
            invariant
                0 <= i < us@.len(),
                0 <= j <= cs@.len(),
                start <= out@.len(),
                start == before.len(),
                strictly_ascending(us@),
                lex_ascending(cs@),
                forall|k: int| 0 <= k < start ==> out@[k] == before[k],
                forall|k: int| start <= k < out@.len() ==> out@[k].0 == us@[i as int],
                forall|k: int| start <= k < out@.len() ==> #[trigger] out@[k].1@ == cs@[k - start]@,
                out@.len() == start + j,
                forall|k: int, m: int| 0 <= k < start && i <= m < us@.len() ==> before[k].0.0 < us@[m].0,
                forall|a: int, b: int| 0 <= a < b < out@.len() ==> in_lock_order(out@[a], out@[b]),
                forall|a: int, b: int|
                    0 <= a < b < out@.len() ==> (out@[a].0, out@[a].1@) != (out@[b].0, out@[b].1@),
            decreases cs@.len() - j,
        {
            let ghost prev = out@;
            out.push((us[i], cs[j].clone()));
            proof {
                assert forall|a: int, b: int|
                    #![trigger out@[a], out@[b]]
                    0 <= a < b < out@.len() implies in_lock_order(out@[a], out@[b])
                    && (out@[a].0, out@[a].1@) != (out@[b].0, out@[b].1@) by {
                    if b == out@.len() - 1 {
                        assert(out@[a] == prev[a]);
                        assert(out@[b].0 == us@[i as int] && out@[b].1@ == cs@[j as int]@);
                        if a < start {
                            assert(before[a].0.0 < us@[i as int].0);
                        } else {
                            assert(out@[a].1@ == cs@[a - start]@);
                            assert(lex_lt(cs@[a - start]@, cs@[j as int]@));
                            lemma_lex_irreflexive(cs@[a - start]@);
                        }
                    } else {
                        assert(out@[a] == prev[a] && out@[b] == prev[b]);
                    }
                }
            }
            j = j + 1;
        }
        proof {
            let q = us@.subrange(0, i as int);
            let p = us@.subrange(0, i as int + 1);
            assert(p =~= q.push(us@[i as int]));
            assert forall|u: UserId, c: Seq<char>|
                #[trigger] lists_pair(out@, u, c) <==> (p.contains(u) && mentions(cs@, c)) by {
                if lists_pair(out@, u, c) {
                    let k = choose|k: int| 0 <= k < out@.len() && out@[k].0 == u && out@[k].1@ == c;
                    if k < start {
                        assert(out@[k] == before[k]);
                        assert(before[k].0 == u && before[k].1@ == c);
                        assert(lists_pair(before, u, c));
                        assert(q.contains(u));
                        let k2 = choose|k2: int| 0 <= k2 < q.len() && q[k2] == u;
                        assert(p[k2] == u);
                    } else {
                        assert(p[i as int] == u);
                        assert(cs@[k - start]@ == c);
                    }
                }
                if p.contains(u) && mentions(cs@, c) {
                    let k2 = choose|k2: int| 0 <= k2 < p.len() && p[k2] == u;
                    let b = choose|b: int| 0 <= b < cs@.len() && cs@[b]@ == c;
                    if k2 < i {
                        assert(q[k2] == u);
                        assert(lists_pair(before, u, c));
                        let k = choose|k: int| 0 <= k < before.len() && before[k].0 == u && before[k].1@ == c;
                        assert(out@[k] == before[k]);
                    } else {
                        assert(out@[start + b].1@ == c);
                        assert(out@[start + b].0 == u);
                    }
                }
            }
            assert forall|k: int, m: int| 0 <= k < out@.len() && i + 1 <= m < us@.len() implies out@[k].0.0 < us@[m].0 by {
                if k < start {
                    assert(out@[k] == before[k]);
                } else {
                    assert(us@[i as int].0 < us@[m].0);
                }
            }
        }
        i = i + 1;
    }
    proof {
        assert(us@.subrange(0, i as int) =~= us@);
        assert forall|u: UserId, c: Seq<char>|
            #[trigger] lists_pair(out@, u, c) <==> (users@.contains(u) && mentions(currencies@, c)) by {
            assert(us@.contains(u) <==> users@.contains(u));
            assert(mentions(cs@, c) <==> mentions(currencies@, c));
        }
    }
    out
}

/// The balances a single transfer touches, in lock order: its source and
/// its destination, in its currency.
pub fn transfer_lock_order(t: &TransactionBuilder) -> (r: Vec<(UserId, CurrencyId)>)
    ensures
        forall|u: UserId, c: Seq<char>|
            #[trigger] lists_pair(r@, u, c) <==> ((t.source == Some(u) || t.dest == Some(u)) && c
                == t.currency_ty@),
        forall|i: int, j: int| 0 <= i < j < r@.len() ==> in_lock_order(r@[i], r@[j]),
{
    let mut users: Vec<UserId> = Vec::new();
    match t.source {
        Some(u) => users.push(u),
        None => {},
    }
    match t.dest {
        Some(u) => users.push(u),
        None => {},
    }
    let mut currencies: Vec<CurrencyId> = Vec::new();
    currencies.push(t.currency_ty.clone());
    let r = lock_order(&users, &currencies);
    proof {
        assert forall|u: UserId| users@.contains(u) <==> (t.source == Some(u) || t.dest == Some(u)) by {
            if t.source == Some(u) {
                assert(users@[0] == u);
            }
            if t.dest == Some(u) {
                assert(users@[users@.len() - 1] == u);
            }
        }
        assert forall|c: Seq<char>| mentions(currencies@, c) <==> c == t.currency_ty@ by {
            if c == t.currency_ty@ {
                assert(currencies@[0]@ == c);
            }
        }
    }
    r
}

} // verus!

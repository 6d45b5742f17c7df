use vstd::prelude::*;

use crate::ledger::{apply_transfer, NewTransfer, TransactionBuilder, TransferError, TransferHandler};
use crate::models::{CurrencyId, Timestamp, TransferType, UserId};
use crate::names::known_name;
use crate::text::{all_ws, ascii_digits, digits_value, is_ws, is_ws_exec, read_digits};

verus! {

/// Who a gift goes to: a user id, optionally with the name the giver expects
/// that user to have.
pub struct GiveDestination {
    pub expected_name: Option<String>,
    pub id: UserId,
}

/// A gift as asked for on the web.
pub struct GiveForm {
    pub csrf: String,
    pub quantity: i64,
    pub ty: String,
    pub destination: GiveDestination,
}

/// Why a gift was refused.
#[derive(Clone, Copy, Debug, PartialEq, Eq, Structural)]
pub enum GiveRejection {
    NegativeQuantity,
    /// The expected name is not the name on record.
    NameMismatch,
    /// A name was expected of a user with no name on record.
    UnknownName,
    NotEnough,
    Overflow,
}

impl GiveRejection {
    pub fn message(&self) -> (r: &'static str)
        ensures
            r@ == match *self {
                GiveRejection::NegativeQuantity => "Failed: No negatives."@,
                GiveRejection::NameMismatch => "Failed: The name does not match the name on record."@,
                GiveRejection::UnknownName => "Failed: The name is not known."@,
                GiveRejection::NotEnough => "Failed: You do not have enough"@,
                GiveRejection::Overflow => "Failed: Overflow"@,
            },
    {
        match self {
            GiveRejection::NegativeQuantity => "Failed: No negatives.",
            GiveRejection::NameMismatch => "Failed: The name does not match the name on record.",
            GiveRejection::UnknownName => "Failed: The name is not known.",
            GiveRejection::NotEnough => "Failed: You do not have enough",
            GiveRejection::Overflow => "Failed: Overflow",
        }
    }
}

/// The rejection a gift meets before funds are looked at, if any.
pub open spec fn give_precheck(dest: GiveDestination, quantity: int) -> Option<GiveRejection> {
    if quantity < 0 {
        Some(GiveRejection::NegativeQuantity)
    } else {
        match dest.expected_name {
            None => None,
            Some(name) => match known_name(dest.id.0) {
                None => Some(GiveRejection::UnknownName),
                Some(known) => if known == name@ {
                    None
                } else {
                    Some(GiveRejection::NameMismatch)
                },
            },
        }
    }
}

/// Gives `quantity` of `currency` from `giver` to a destination, inside one
/// transaction whose cache holds both users' balances in that currency. A
/// name that comes with the destination must be the one on record.
pub fn give_perform(
    handle: &mut TransferHandler,
    giver: UserId,
    dest: &GiveDestination,
    quantity: i64,
    currency: CurrencyId,
    now: Timestamp,
    message_id: Option<i64>,
) -> (r: Result<NewTransfer, GiveRejection>)
    requires
        old(handle).wf(),
        old(handle)@.contains_key((giver.0, currency@)),
        old(handle)@.contains_key((dest.id.0, currency@)),
    ensures
        final(handle).wf(),
        ({
            let pre = give_precheck(*dest, quantity as int);
            let applied = apply_transfer(old(handle)@, Some(giver), Some(dest.id), currency@, quantity as int);
            match r {
                Err(why) => {
                    &&& final(handle)@ == old(handle)@
                    &&& match pre {
                        Some(p) => why == p,
                        None => applied is Err && why == match applied->Err_0 {
                            TransferError::NotEnough => GiveRejection::NotEnough,
                            TransferError::Overflow => GiveRejection::Overflow,
                        },
                    }
                },
                Ok(row) => {
                    &&& pre is None
                    &&& applied is Ok
                    &&& final(handle)@ == applied->Ok_0
                    &&& row.from_user == Some(giver)
                    &&& row.to_user == Some(dest.id)
                    &&& row.from_balance == Some((old(handle)@[(giver.0, currency@)] - quantity) as i64)
                    &&& row.to_balance == Some(final(handle)@[(dest.id.0, currency@)] as i64)
                    &&& row.quantity == quantity
                    &&& row.ty@ == currency@
                    &&& row.transfer_ty == TransferType::Give
                    &&& row.message_id == message_id
                    &&& row.happened_at == now
                },
            }
        }),
{
    if quantity < 0 {
        return Err(GiveRejection::NegativeQuantity);
    }
    match &dest.expected_name {
        Some(name) => {
            match crate::names::lookup_known(dest.id.into_u64()) {
                Some(known) => {
                    if !crate::text::same_text(known, name.as_str()) {
                        return Err(GiveRejection::NameMismatch);
                    }
                },
                None => {
                    return Err(GiveRejection::UnknownName);
                },
            }
        },
        None => {},
    }
    let t = TransactionBuilder::new(quantity, currency, now);
    let t = t.give(giver, dest.id, false);
    let t = match message_id {
        Some(id) => t.message_id_raw(id),
        None => t,
    };
    match handle.transfer(t) {
        Ok(row) => Ok(row),
        Err(TransferError::NotEnough) => Err(GiveRejection::NotEnough),
        Err(TransferError::Overflow) => Err(GiveRejection::Overflow),
    }
}

pub open spec fn dash_free(s: Seq<char>) -> bool {
    forall|i: int| 0 <= i < s.len() ==> #[trigger] s[i] != '-'
}

/// Where the first dash of `s` stands, or its length where it has none.
pub open spec fn is_first_dash(s: Seq<char>, p: int) -> bool {
    0 <= p <= s.len() && dash_free(s.subrange(0, p)) && (p == s.len() || s[p] == '-')
}

/// The end of the name before position `p`: white space is dropped from its
/// end.
pub open spec fn is_name_end(s: Seq<char>, p: int, a: int) -> bool {
    0 <= a <= p && all_ws(s.subrange(a, p)) && (a == 0 || !is_ws(s[a - 1]))
}

/// Where the digits after position `p` start: white space is dropped first.
pub open spec fn is_digits_start(s: Seq<char>, p: int, b: int) -> bool {
    p <= b <= s.len() && all_ws(s.subrange(p, b)) && (b == s.len() || !is_ws(s[b]))
}

/// What a destination field reads as: a user id, or `name - id` with white
/// space allowed around the dash, where the name holds neither white space
/// nor a dash. `None` where the text has another shape, or the id passes
/// `i64::MAX`.
pub open spec fn destination_of(s: Seq<char>) -> Option<(Option<Seq<char>>, nat)> {
    let p = choose|p: int| #[trigger] is_first_dash(s, p);
    let a = choose|a: int| #[trigger] is_name_end(s, p, a);
    let b = choose|b: int| #[trigger] is_digits_start(s, p + 1, b);
    if p == s.len() {
        if ascii_digits(s) && digits_value(s) <= i64::MAX {
            Some((None, digits_value(s)))
        } else {
            None
        }
    } else {
        let name = s.subrange(0, a);
        let digits = s.subrange(b, s.len() as int);
        if a > 0 && (forall|i: int| 0 <= i < name.len() ==> !is_ws(#[trigger] name[i])) && ascii_digits(digits)
            && digits_value(digits) <= i64::MAX {
            Some((Some(name), digits_value(digits)))
        } else {
            None
        }
    }
}

/// Whether `s[..a]` holds no white space.
fn no_ws_before(s: &str, a: usize) -> (r: bool)
    requires
        a <= s@.len(),
    ensures
        r == forall|i: int| 0 <= i < s@.subrange(0, a as int).len() ==> !is_ws(#[trigger] s@.subrange(0, a as int)[i]),
{
    let mut k: usize = 0;
    while k < a
        invariant
            a <= s@.len(),
            0 <= k <= a,
            forall|i: int| 0 <= i < k ==> !is_ws(#[trigger] s@[i]),
        decreases a - k,
    {
        if is_ws_exec(s.get_char(k)) {
            proof {
                assert(s@.subrange(0, a as int)[k as int] == s@[k as int]);
            }
            return false;
        }
        k = k + 1;
    }
    proof {
        assert forall|i: int| 0 <= i < s@.subrange(0, a as int).len() implies !is_ws(
            #[trigger] s@.subrange(0, a as int)[i],
        ) by {
            assert(s@.subrange(0, a as int)[i] == s@[i]);
        }
    }
    true
}

impl GiveDestination {
    /// Reads a destination field (see `destination_of`).
    pub fn parse(s: &str) -> (r: Option<GiveDestination>)
        ensures
            r is Some <==> destination_of(s@) is Some,
            r is Some ==> ({
                let d = destination_of(s@)->0;
                &&& r->0.id.0 == d.1
                &&& match d.0 {
                    Some(n) => r->0.expected_name is Some && r->0.expected_name->0@ == n,
                    None => r->0.expected_name is None,
                }
            }),
    {
        let ghost t = s@;
        let n = s.unicode_len();
        let mut p: usize = 0;
        while p < n && s.get_char(p) != '-'
            invariant
                t == s@,
                n == t.len(),
                0 <= p <= n,
                dash_free(t.subrange(0, p as int)),
            decreases n - p,
        {
            proof {
                assert(t.subrange(0, p as int + 1) =~= t.subrange(0, p as int).push(t[p as int]));
            }
            p = p + 1;
        }
        proof {
            assert(is_first_dash(t, p as int));
            assert forall|q: int| #[trigger] is_first_dash(t, q) implies q == p by {
                if q < p {
                    assert(t.subrange(0, p as int)[q] == t[q]);
                } else if q > p {
                    assert(t.subrange(0, q)[p as int] == t[p as int]);
                }
            }
        }
        if p == n {
            proof {
                assert(t.subrange(0, n as int) =~= t);
            }
            return match read_digits(s, 0) {
                Some(v) => Some(GiveDestination { expected_name: None, id: UserId(v as u64) }),
                None => None,
            };
        }
        let mut a: usize = p;
        while a > 0 && is_ws_exec(s.get_char(a - 1))
            invariant
                t == s@,
                n == t.len(),
                0 <= a <= p < n,
                all_ws(t.subrange(a as int, p as int)),
            decreases a,
        {
            proof {
                assert forall|i: int| 0 <= i < t.subrange(a - 1, p as int).len() implies is_ws(
                    #[trigger] t.subrange(a - 1, p as int)[i],
                ) by {
                    if i > 0 {
                        assert(t.subrange(a - 1, p as int)[i] == t.subrange(a as int, p as int)[i - 1]);
                    }
                }
            }
            a = a - 1;
        }
        proof {
            assert(is_name_end(t, p as int, a as int));
            assert forall|q: int| #[trigger] is_name_end(t, p as int, q) implies q == a by {
                if q < a {
                    assert(t.subrange(q, p as int)[a - 1 - q] == t[a - 1]);
                } else if q > a {
                    assert(t.subrange(a as int, p as int)[q - 1 - a] == t[q - 1]);
                }
            }
        }
        let mut b: usize = p + 1;
        while b < n && is_ws_exec(s.get_char(b))
            invariant
                t == s@,
                n == t.len(),
                p < n,
                p + 1 <= b <= n,
                all_ws(t.subrange(p + 1, b as int)),
            decreases n - b,
        {
            proof {
                assert forall|i: int| 0 <= i < t.subrange(p + 1, b + 1).len() implies is_ws(
                    #[trigger] t.subrange(p + 1, b + 1)[i],
                ) by {
                    if i < b - p - 1 {
                        assert(t.subrange(p + 1, b + 1)[i] == t.subrange(p + 1, b as int)[i]);
                    }
                }
            }
            b = b + 1;
        }
        proof {
            assert(is_digits_start(t, p + 1, b as int));
            assert forall|q: int| #[trigger] is_digits_start(t, p + 1, q) implies q == b by {
                if q < b {
                    assert(t.subrange(p + 1, b as int)[q - p - 1] == t[q]);
                } else if q > b {
                    assert(t.subrange(p + 1, q)[b - p - 1] == t[b as int]);
                }
            }
        }
        if a == 0 {
            return None;
        }
        if !no_ws_before(s, a) {
            return None;
        }
        match read_digits(s, b) {
            Some(v) => {
                let name = s.substring_char(0, a);
                Some(GiveDestination { expected_name: Some(String::from_str(name)), id: UserId(v as u64) })
            },
            None => None,
        }
    }
}

/// Why currency could not be fabricated.
#[derive(Clone, Copy, Debug, PartialEq, Eq, Structural)]
pub enum FabricateError {
    /// Only a positive quantity can be created.
    NotPositive,
    /// The user's balance would pass `i64::MAX`.
    Overflow,
}

/// Creates `how_many` of `currency` for `user` out of thin air, inside one
/// transaction whose cache holds that balance.
pub fn fabricate(
    handle: &mut TransferHandler,
    user: UserId,
    currency: CurrencyId,
    how_many: i64,
    now: Timestamp,
    message_id: Option<i64>,
) -> (r: Result<NewTransfer, FabricateError>)
    requires
        old(handle).wf(),
        old(handle)@.contains_key((user.0, currency@)),
    ensures
        final(handle).wf(),
        ({
            let m = old(handle)@;
            let k = (user.0, currency@);
            match r {
                Err(e) => final(handle)@ == m && e == if how_many <= 0 {
                    FabricateError::NotPositive
                } else {
                    FabricateError::Overflow
                } && (e == FabricateError::Overflow ==> m[k] + how_many > i64::MAX),
                Ok(row) => {
                    &&& how_many > 0
                    &&& final(handle)@ == m.insert(k, m[k] + how_many)
                    &&& row.to_user == Some(user)
                    &&& row.from_user is None
                    &&& row.quantity == how_many
                    &&& row.ty@ == currency@
                    &&& row.transfer_ty == TransferType::AdminFabricate
                    &&& row.to_balance == Some((m[k] + how_many) as i64)
                    &&& row.message_id == message_id
                    &&& row.happened_at == now
                },
            }
        }),
{
    if how_many <= 0 {
        return Err(FabricateError::NotPositive);
    }
    let t = TransactionBuilder::new(how_many, currency, now);
    let t = t.fabricate(user, false);
    let t = match message_id {
        Some(id) => t.message_id_raw(id),
        None => t,
    };
    match handle.transfer(t) {
        Ok(row) => Ok(row),
        Err(_) => Err(FabricateError::Overflow),
    }
}

} // verus!

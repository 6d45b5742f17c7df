use pluto::give::{fabricate, give_perform, FabricateError, GiveDestination, GiveForm, GiveRejection};
use pluto::ledger::TransferHandler;
use pluto::models::{CurrencyId, TransferType, UserId};

fn handler(balances: &[(u64, i64)]) -> TransferHandler {
    let mut h = TransferHandler::new();
    for (u, b) in balances {
        h.add_snapshot(UserId(*u), CurrencyId::pc(), Some(*b));
    }
    h
}

fn to(id: u64, name: Option<&str>) -> GiveDestination {
    GiveDestination { expected_name: name.map(String::from), id: UserId(id) }
}

#[test]
fn parse_plain_id() {
    let d = GiveDestination::parse("42").unwrap();
    assert_eq!(d.id, UserId(42));
    assert!(d.expected_name.is_none());
}

#[test]
fn parse_name_and_id() {
    let d = GiveDestination::parse("Shelvacu - 165858230327574528").unwrap();
    assert_eq!(d.id, UserId(165858230327574528));
    assert_eq!(d.expected_name.as_deref(), Some("Shelvacu"));
    let d = GiveDestination::parse("Ben-155438323354042368").unwrap();
    assert_eq!(d.expected_name.as_deref(), Some("Ben"));
    let d = GiveDestination::parse("Ben\t-\u{3000}7").unwrap();
    assert_eq!((d.expected_name.as_deref(), d.id), (Some("Ben"), UserId(7)));
}

#[test]
fn parse_rejects_other_shapes() {
    assert!(GiveDestination::parse("").is_none());
    assert!(GiveDestination::parse("Ben").is_none());
    assert!(GiveDestination::parse("- 5").is_none());
    assert!(GiveDestination::parse("Big Ben - 5").is_none());
    assert!(GiveDestination::parse("Ben - ").is_none());
    assert!(GiveDestination::parse("Ben - 5x").is_none());
    assert!(GiveDestination::parse("Ben - - 5").is_none());
    assert!(GiveDestination::parse(" 5").is_none());
    assert!(GiveDestination::parse("99999999999999999999").is_none());
    assert_eq!(GiveDestination::parse("9223372036854775807").unwrap().id, UserId(i64::MAX as u64));
}

#[test]
fn give_moves_funds() {
    let mut h = handler(&[(1, 10), (2, 0)]);
    let row = give_perform(&mut h, UserId(1), &to(2, None), 4, CurrencyId::pc(), 50, Some(9)).unwrap();
    assert_eq!((row.from_user, row.to_user, row.quantity), (Some(UserId(1)), Some(UserId(2)), 4));
    assert_eq!(row.transfer_ty, TransferType::Give);
    assert_eq!(row.message_id, Some(9));
    assert_eq!(h.balance(UserId(1), &CurrencyId::pc()), 6);
    assert_eq!(h.balance(UserId(2), &CurrencyId::pc()), 4);
}

#[test]
fn give_checks_expected_name() {
    let mut h = handler(&[(1, 10), (155438323354042368, 0), (77, 0)]);
    let ben = 155438323354042368;
    assert!(give_perform(&mut h, UserId(1), &to(ben, Some("Ben")), 1, CurrencyId::pc(), 0, None).is_ok());
    assert_eq!(
        give_perform(&mut h, UserId(1), &to(ben, Some("Bob")), 1, CurrencyId::pc(), 0, None).err(),
        Some(GiveRejection::NameMismatch)
    );
    assert_eq!(
        give_perform(&mut h, UserId(1), &to(77, Some("Bob")), 1, CurrencyId::pc(), 0, None).err(),
        Some(GiveRejection::UnknownName)
    );
    assert_eq!(h.balance(UserId(1), &CurrencyId::pc()), 9);
}

#[test]
fn give_rejections() {
    let mut h = handler(&[(1, 10), (2, i64::MAX)]);
    assert_eq!(
        give_perform(&mut h, UserId(1), &to(2, None), -1, CurrencyId::pc(), 0, None).err(),
        Some(GiveRejection::NegativeQuantity)
    );
    assert_eq!(
        give_perform(&mut h, UserId(1), &to(2, None), 11, CurrencyId::pc(), 0, None).err(),
        Some(GiveRejection::NotEnough)
    );
    assert_eq!(
        give_perform(&mut h, UserId(1), &to(2, None), 1, CurrencyId::pc(), 0, None).err(),
        Some(GiveRejection::Overflow)
    );
    assert_eq!(h.balance(UserId(1), &CurrencyId::pc()), 10);
}

#[test]
fn give_form_holds_destination() {
    let f = GiveForm {
        csrf: String::from("token"),
        quantity: 3,
        ty: String::from("pc"),
        destination: GiveDestination::parse("5").unwrap(),
    };
    assert_eq!(f.destination.id, UserId(5));
    assert_eq!(f.quantity, 3);
}

#[test]
fn fabricate_creates_positive_amounts() {
    let mut h = handler(&[(1, 5), (2, i64::MAX)]);
    let row = fabricate(&mut h, UserId(1), CurrencyId::pc(), 10, 3, None).unwrap();
    assert_eq!((row.to_balance, row.transfer_ty), (Some(15), TransferType::AdminFabricate));
    assert_eq!(h.balance(UserId(1), &CurrencyId::pc()), 15);
    assert_eq!(fabricate(&mut h, UserId(1), CurrencyId::pc(), 0, 3, None).err(), Some(FabricateError::NotPositive));
    assert_eq!(fabricate(&mut h, UserId(2), CurrencyId::pc(), 1, 3, None).err(), Some(FabricateError::Overflow));
    assert_eq!(h.balance(UserId(2), &CurrencyId::pc()), i64::MAX);
}

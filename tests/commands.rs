use pluto::commands::{parse_u32, split_amount, vote_args, GiveArgError, VoteArgError};

fn words(ws: &[&str]) -> Vec<String> {
    ws.iter().map(|w| w.to_string()).collect()
}

#[test]
fn vote_words() {
    assert_eq!(vote_args(&words(&[])), Ok((None, 1)));
    assert_eq!(vote_args(&words(&["yes"])), Ok((Some(true), 1)));
    assert_eq!(vote_args(&words(&["i", "think", "nay", "5"])), Ok((Some(false), 5)));
    assert_eq!(vote_args(&words(&["5", "for", "zero"])), Ok((Some(true), 0)));
    assert_eq!(vote_args(&words(&["\u{2705}", "+7"])), Ok((Some(true), 7)));
    assert_eq!(vote_args(&words(&["maybe", "yes"])), Err(VoteArgError::BadCount));
    assert_eq!(vote_args(&words(&["4294967296"])), Err(VoteArgError::BadCount));
    assert_eq!(vote_args(&words(&["-1"])), Err(VoteArgError::BadCount));
}

#[test]
fn u32_texts() {
    assert_eq!(parse_u32("4294967295"), Some(u32::MAX));
    assert_eq!(parse_u32("+12"), Some(12));
    assert_eq!(parse_u32("+"), None);
    assert_eq!(parse_u32(""), None);
    assert_eq!(parse_u32("1 2"), None);
}

#[test]
fn amount_words() {
    assert_eq!(split_amount("25"), Ok((25, None)));
    assert_eq!(split_amount("25pc"), Ok((25, Some(String::from("pc")))));
    assert_eq!(split_amount("pc"), Err(GiveArgError::InvalidType));
    assert_eq!(split_amount("99999999999999999999gen"), Err(GiveArgError::BadCount));
    assert_eq!(split_amount(""), Err(GiveArgError::BadCount));
}

use ledger::telegram::commands::won;
use ledger::telegram::parser::{parse_amount, parse_command};

#[test]
fn command_parses_with_bot_suffix() {
    let parsed = parse_command("/today@ledger_bot   추가값").unwrap();
    assert_eq!(parsed.command, "/today");
    assert_eq!(parsed.args, vec!["추가값"]);
}

#[test]
fn amount_parses_korean_won_format() {
    assert_eq!(parse_amount("12,300원"), Some(12300));
    assert_eq!(parse_amount("-1000"), None);
}

#[test]
fn written_amounts_read_back() {
    use_won_round_trip(1);
    use_won_round_trip(999);
    use_won_round_trip(12_300);
    use_won_round_trip(1_234_567_890);
    use_won_round_trip(i64::MAX);
}

fn use_won_round_trip(v: i64) {
    assert_eq!(parse_amount(&won(v)), Some(v));
}

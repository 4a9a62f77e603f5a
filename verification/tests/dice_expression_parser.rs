use tabletop::dice::dice_expression_parser::{
    assemble, parse_term, split_signs, split_terms, DiceExpressionParserImpl,
};
use tabletop::dice::{DiceExpressionParser, Die};
use tabletop::utilities::text::{chars_of, contains_char, parse_i32, split_on};

#[test]
fn test_dice_expression_parser_ok() {
    let parser = DiceExpressionParserImpl::default();

    let result = parser.parse("1d20+2d12+3d10+4d8+15d6+200d4+1234");
    assert!(result.is_ok());
    assert_eq!(
        result.unwrap(),
        vec![
            (Die::D20, 1),
            (Die::D12, 2),
            (Die::D10, 3),
            (Die::D8, 4),
            (Die::D6, 15),
            (Die::D4, 200),
            (Die::Raw, 1234),
        ]
    );
}

#[test]
fn test_dice_expression_parser_err() {
    let parser = DiceExpressionParserImpl::default();

    let result = parser.parse("This is not a valid dice expression");
    assert!(result.is_err());
}

#[test]
fn test_dice_expression_with_uppercase_ok() {
    let parser = DiceExpressionParserImpl::default();

    let result = parser.parse("1D20+2D12");
    assert!(result.is_ok());
    assert_eq!(result.unwrap(), vec![(Die::D20, 1), (Die::D12, 2),]);
}

#[test]
fn test_dice_expression_with_negatives_ok() {
    let parser = DiceExpressionParserImpl::default();

    let result = parser.parse("4d10-2d4-3");
    assert!(result.is_ok());
    assert_eq!(
        result.unwrap(),
        vec![(Die::D10, 4), (Die::D4, -2), (Die::Raw, -3),]
    );
}

#[test]
fn try_default_yields_a_parser() {
    let parser = DiceExpressionParserImpl::try_default();
    assert!(parser.is_some());
    assert_eq!(parser.unwrap().parse("2d6"), Ok(vec![(Die::D6, 2)]));
}

#[test]
fn rejection_quotes_the_expression_as_given() {
    let parser = DiceExpressionParserImpl::default();

    assert_eq!(
        parser.parse("not a dice expression"),
        Err("\"not a dice expression\" is not a valid dice expression".to_string())
    );
    assert_eq!(
        parser.parse("Mixed CASE"),
        Err("\"Mixed CASE\" is not a valid dice expression".to_string())
    );
}

#[test]
fn bare_die_has_count_zero() {
    let parser = DiceExpressionParserImpl::default();

    assert_eq!(parser.parse("d6"), Ok(vec![(Die::D6, 0)]));
    assert_eq!(parser.parse("-d8"), Ok(vec![(Die::Raw, 0), (Die::D8, 0)]));
}

#[test]
fn empty_pieces_are_raw_zero() {
    let parser = DiceExpressionParserImpl::default();

    assert_eq!(parser.parse(""), Ok(vec![(Die::Raw, 0)]));
    assert_eq!(parser.parse("1d20+"), Ok(vec![(Die::D20, 1), (Die::Raw, 0)]));
    assert_eq!(parser.parse("-3"), Ok(vec![(Die::Raw, 0), (Die::Raw, -3)]));
    assert_eq!(parser.parse("-"), Ok(vec![(Die::Raw, 0), (Die::Raw, 0)]));
}

#[test]
fn invalid_pieces_are_dropped_silently() {
    let parser = DiceExpressionParserImpl::default();

    assert_eq!(parser.parse("2d6+x+3"), Ok(vec![(Die::D6, 2), (Die::Raw, 3)]));
    assert_eq!(parser.parse("2d7+1"), Ok(vec![(Die::Raw, 1)]));
    assert_eq!(parser.parse("1 d6+4"), Ok(vec![(Die::Raw, 4)]));
    assert!(parser.parse("2d7").is_err());
    assert!(parser.parse("2d6d8").is_err());
}

#[test]
fn counts_that_do_not_fit_are_zero() {
    let parser = DiceExpressionParserImpl::default();

    assert_eq!(parser.parse("99999999999d6"), Ok(vec![(Die::D6, 0)]));
    assert_eq!(parser.parse("2147483647"), Ok(vec![(Die::Raw, 2147483647)]));
    assert_eq!(parser.parse("2147483648"), Ok(vec![(Die::Raw, 0)]));
    assert_eq!(parser.parse("-2147483648"), Ok(vec![(Die::Raw, 0), (Die::Raw, -2147483648)]));
}

#[test]
fn digits_of_other_scripts_match_but_count_zero() {
    let parser = DiceExpressionParserImpl::default();

    assert_eq!(parser.parse("\u{663}d6"), Ok(vec![(Die::D6, 0)]));
    assert_eq!(parser.parse("\u{663}"), Ok(vec![(Die::Raw, 0)]));
}

#[test]
fn every_die_is_selected_by_its_suffix() {
    assert_eq!(parse_term("1d4"), (Die::D4, 1));
    assert_eq!(parse_term("2d6"), (Die::D6, 2));
    assert_eq!(parse_term("3d8"), (Die::D8, 3));
    assert_eq!(parse_term("4d10"), (Die::D10, 4));
    assert_eq!(parse_term("5d12"), (Die::D12, 5));
    assert_eq!(parse_term("6d20"), (Die::D20, 6));
    assert_eq!(parse_term("-7d4"), (Die::D4, -7));
    assert_eq!(parse_term("12"), (Die::Raw, 12));
    assert_eq!(parse_term("-12"), (Die::Raw, -12));
}

#[test]
fn any_other_suffix_selects_the_d20() {
    assert_eq!(parse_term("2d"), (Die::D20, 2));
    assert_eq!(parse_term("2d100"), (Die::D20, 2));
    assert_eq!(parse_term("2d1"), (Die::D20, 2));
    assert_eq!(parse_term("2d04"), (Die::D20, 2));
    assert_eq!(parse_term("d"), (Die::D20, 0));
}

#[test]
fn only_the_text_up_to_the_second_d_selects_the_die() {
    assert_eq!(parse_term("1d4d6"), (Die::D4, 1));
    assert_eq!(parse_term("dd"), (Die::D20, 0));
}

#[test]
fn unparsable_counts_are_zero() {
    assert_eq!(parse_term("xd6"), (Die::D6, 0));
    assert_eq!(parse_term("x"), (Die::Raw, 0));
    assert_eq!(parse_term(""), (Die::Raw, 0));
    assert_eq!(parse_term("+5"), (Die::Raw, 5));
}

#[test]
fn minus_becomes_plus_minus() {
    assert_eq!(split_signs("4d10-2d4-3"), "4d10+-2d4+-3");
    assert_eq!(split_signs("--"), "+-+-");
    assert_eq!(split_signs("1+2"), "1+2");
    assert_eq!(split_signs(""), "");
}

#[test]
fn terms_are_cut_at_plus_and_before_minus() {
    assert_eq!(split_terms("4d10-2d4-3"), vec!["4d10", "-2d4", "-3"]);
    assert_eq!(split_terms("1d20+2d12"), vec!["1d20", "2d12"]);
    assert_eq!(split_terms("+"), vec!["", ""]);
    assert_eq!(split_terms(""), vec![""]);
}

#[test]
fn assemble_keeps_accepted_pieces_in_order() {
    let pieces = vec!["2d6".to_string(), "junk".to_string(), "5".to_string()];

    assert_eq!(
        assemble("2d6+junk+5", &pieces, &vec![true, false, true]),
        Ok(vec![(Die::D6, 2), (Die::Raw, 5)])
    );
    assert_eq!(
        assemble("2d6+junk+5", &pieces, &vec![true, true, true]),
        Ok(vec![(Die::D6, 2), (Die::Raw, 0), (Die::Raw, 5)])
    );
    assert_eq!(
        assemble("2d6+junk+5", &pieces, &vec![false, false, false]),
        Err("\"2d6+junk+5\" is not a valid dice expression".to_string())
    );
    assert_eq!(
        assemble("", &vec![], &vec![]),
        Err("\"\" is not a valid dice expression".to_string())
    );
}

#[test]
fn pieces_without_a_verdict_are_dropped() {
    let pieces = vec!["2d6".to_string(), "3".to_string(), "5".to_string()];

    assert_eq!(assemble("2d6+3+5", &pieces, &vec![true, true]), Ok(vec![(Die::D6, 2), (Die::Raw, 3)]));
    assert_eq!(
        assemble("2d6+3+5", &pieces, &vec![false, false, true, true]),
        Ok(vec![(Die::Raw, 5)])
    );
    assert!(assemble("2d6+3+5", &pieces, &vec![]).is_err());
}

#[test]
fn split_on_keeps_empty_pieces() {
    assert_eq!(split_on("a,b,,c", ','), vec!["a", "b", "", "c"]);
    assert_eq!(split_on(",", ','), vec!["", ""]);
    assert_eq!(split_on("abc", ','), vec!["abc"]);
    assert_eq!(split_on("", ','), vec![""]);
}

#[test]
fn chars_of_lists_the_characters() {
    assert_eq!(chars_of("d20"), vec!['d', '2', '0']);
    assert_eq!(chars_of(""), Vec::<char>::new());
    assert!(contains_char("2d6", 'd'));
    assert!(!contains_char("26", 'd'));
}

#[test]
fn parse_i32_reads_what_std_reads() {
    for text in [
        "", "0", "7", "007", "+7", "-7", "-0", "+", "-", "--1", "+-1", "1-", "12a", "a12", " 1", "1 ",
        "2147483647", "2147483648", "-2147483648", "-2147483649", "99999999999999999999",
        "-99999999999999999999", "\u{663}", "1_000",
    ] {
        assert_eq!(parse_i32(text), text.parse::<i32>().ok(), "for {:?}", text);
    }
    assert_eq!(parse_i32("1234"), Some(1234));
    assert_eq!(parse_i32("-2147483648"), Some(i32::MIN));
    assert_eq!(parse_i32("2147483648"), None);
}

use tasks::error::StoreError;
use tasks::utils::{
    break_line, decimal_string, malformed_tokens, parse_args, parse_id, parse_ids,
};

#[test]
fn decimal_string_writes_numbers_as_std_does() {
    for n in [0usize, 1, 9, 10, 11, 99, 100, 101, 4096, 65535, 1234567890, usize::MAX] {
        assert_eq!(decimal_string(n), n.to_string());
    }
    assert_eq!(decimal_string(507), "507");
}

#[test]
fn parse_args_splits_at_commas() {
    assert_eq!(parse_args(&"1,2,3".to_string()), vec!["1", "2", "3"]);
    assert_eq!(parse_args(&"work".to_string()), vec!["work"]);
    assert_eq!(parse_args(&"".to_string()), vec![""]);
    assert_eq!(parse_args(&",".to_string()), vec!["", ""]);
    assert_eq!(parse_args(&"a,,b,".to_string()), vec!["a", "", "b", ""]);
    assert_eq!(parse_args(&",x".to_string()), vec!["", "x"]);
    assert_eq!(parse_args(&"é,日本,x y".to_string()), vec!["é", "日本", "x y"]);
}

#[test]
fn parse_args_agrees_with_std_split() {
    for text in ["", ",", ",,", "a", "a,b", ",a,", "1, 2,3", "ü,ö,,ä"] {
        let expected: Vec<&str> = text.split(",").collect();
        assert_eq!(parse_args(&text.to_string()), expected);
    }
}

#[test]
fn parse_id_reads_decimal_numbers() {
    assert_eq!(parse_id("0"), Ok(0));
    assert_eq!(parse_id("7"), Ok(7));
    assert_eq!(parse_id("42"), Ok(42));
    assert_eq!(parse_id("007"), Ok(7));
    assert_eq!(parse_id("+15"), Ok(15));
    assert_eq!(parse_id(&usize::MAX.to_string()), Ok(usize::MAX));
}

#[test]
fn parse_id_rejects_what_is_no_number() {
    for token in ["", "+", "-1", "1 ", " 1", "1.5", "abc", "1a", "++1", "1+", "٣", "1_000"] {
        assert_eq!(parse_id(token), Err(StoreError::MalformedInput), "{:?}", token);
    }
    let too_big = format!("{}0", usize::MAX);
    assert_eq!(parse_id(&too_big), Err(StoreError::MalformedInput));
    let one_more = "18446744073709551616";
    assert_eq!(parse_id(one_more).is_ok(), one_more.parse::<usize>().is_ok());
}

#[test]
fn parse_id_agrees_with_std_parse() {
    for token in ["", "+", "0", "+0", "-0", "12", "0012", "99999999999999999999999", "1e3", "٣"] {
        assert_eq!(parse_id(token).ok(), token.parse::<usize>().ok(), "{:?}", token);
    }
}

#[test]
fn parse_ids_keeps_the_numbers_in_order() {
    assert_eq!(parse_ids(vec!["3", "1", "2"]), vec![3, 1, 2]);
    assert_eq!(parse_ids(vec!["1", "", "x", "2", "+4", "1"]), vec![1, 2, 4, 1]);
    assert_eq!(parse_ids(vec![""]), Vec::<usize>::new());
    assert_eq!(parse_ids(vec![]), Vec::<usize>::new());
}

#[test]
fn malformed_tokens_are_the_ones_to_warn_about() {
    assert_eq!(malformed_tokens(&vec!["1", "", "x", "2", "-4", ""]), vec!["x", "-4"]);
    assert_eq!(malformed_tokens(&vec!["1", "2"]), Vec::<&str>::new());
    assert_eq!(malformed_tokens(&vec![""]), Vec::<&str>::new());
}

#[test]
fn break_line_leaves_short_lines_alone() {
    assert_eq!(break_line("short".to_string(), &10), "short");
    assert_eq!(break_line("".to_string(), &10), "");
    assert_eq!(break_line("exactly10!".to_string(), &10), "exactly10!");
    assert_eq!(break_line("a b".to_string(), &3), "a b");
}

#[test]
fn break_line_breaks_at_the_last_space_in_reach() {
    assert_eq!(break_line("hello world foo".to_string(), &10), "hello\nworld foo");
    assert_eq!(
        break_line("the quick brown fox jumps".to_string(), &10),
        "the quick\nbrown fox\njumps"
    );
    assert_eq!(break_line("aaa bbb ccc ddd".to_string(), &4), "aaa\nbbb\nccc\nddd");
}

#[test]
fn break_line_cuts_words_that_are_too_long() {
    assert_eq!(break_line("abcdefghijkl".to_string(), &5), "abcde\nfghij\nkl");
    assert_eq!(break_line("abcdefghij".to_string(), &5), "abcde\nfghij");
    assert_eq!(break_line("abcdefghijk".to_string(), &1), "a\nb\nc\nd\ne\nf\ng\nh\ni\nj\nk");
}

#[test]
fn break_line_drops_only_the_space_it_breaks_at() {
    assert_eq!(break_line(" abcdef".to_string(), &3), "\nabc\ndef");
    assert_eq!(break_line("ab  cd  ef".to_string(), &4), "ab \ncd \nef");
    assert_eq!(break_line("abcd efgh".to_string(), &4), "abcd\n\nefgh");
}

#[test]
fn a_number_written_out_reads_back() {
    for n in [0usize, 1, 9, 10, 42, 100, 65535, usize::MAX] {
        assert_eq!(parse_id(&decimal_string(n)), Ok(n));
    }
}

#[test]
fn pieces_joined_with_commas_are_the_text_again() {
    for text in ["", ",", "a,b", ",a,,b,", "no comma", "1,2,3"] {
        let owned = text.to_string();
        let pieces = parse_args(&owned);
        assert!(!pieces.is_empty());
        assert!(pieces.iter().all(|piece| !piece.contains(',')));
        assert_eq!(pieces.join(","), text);
    }
}

#[test]
fn break_line_counts_characters() {
    assert_eq!(break_line("éééééé".to_string(), &3), "ééé\nééé");
    assert_eq!(break_line("日本語 テキスト".to_string(), &4), "日本語\nテキスト");
    assert_eq!(break_line("ü ö ä".to_string(), &5), "ü ö ä");
}

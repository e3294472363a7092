use solrcopy::helpers::{
    env_value, env_var, parse_isize, text_between, to_decimal, CapturesHelpers, Groups,
    IntegerHelpers, Matcher, RegexHelpers, StringHelpers, BRACKETS, COMMA, EMPTY_STR, PT, SEMICOLON, SPACE, ZERO,
};

#[test]
fn check_starts_with_any() {
    let ok = &["true", "test"];
    let s1: &str = "test";
    assert_eq!(s1.starts_with_any(ok), true);
    let s2: String = String::from("test");
    assert_eq!(s2.starts_with_any(ok), true);
}

#[test]
fn constants() {
    assert_eq!(EMPTY_STR, "");
    assert_eq!(PT, ".");
    assert_eq!(COMMA, ",");
    assert_eq!(SEMICOLON, ";");
    assert_eq!(BRACKETS, "{}");
    assert_eq!(SPACE, ' ');
    assert_eq!(ZERO, '0');
}

#[test]
fn starts_with_none() {
    assert_eq!("test".starts_with_any(&["rue", "est"]), false);
    assert_eq!("test".starts_with_any(&[]), false);
    assert_eq!("te".starts_with_any(&["test"]), false);
    assert_eq!("test".starts_with_any(&[""]), true);
}

#[test]
fn ends_with_any_of_them() {
    assert_eq!("archive.zip".ends_with_any(&[".tar", ".zip"]), true);
    assert_eq!("archive.zip".ends_with_any(&[".tar", "archive"]), false);
    assert_eq!("archive.zip".ends_with_any(&[]), false);
    assert_eq!("zip".ends_with_any(&["a.zip"]), false);
}

#[test]
fn contains_any_of_them() {
    assert_eq!("archive.zip".contains_any(&["x", "ive."]), true);
    assert_eq!("archive.zip".contains_any(&["x", "y"]), false);
    assert_eq!("archive.zip".contains_any(&[]), false);
    assert_eq!("größe".contains_any(&["öß"]), true);
}

#[test]
fn text_between_pattern_and_position() {
    assert_eq!("<a>hello</a>".find_text_between("<a>", 8), Some("hello"));
    assert_eq!("<a>hello</a>".find_text_between("<a>", 100), Some("hello</a>"));
    assert_eq!("key=[value])".find_text_between("=[", -1), Some("value"));
    assert_eq!("one two one three".find_text_between("one", 7), Some(" two"));
}

#[test]
fn text_between_finds_nothing() {
    assert_eq!("<a>hello</a>".find_text_between("<b>", 8), None);
    assert_eq!("<a>hello</a>".find_text_between("<a>", 3), None);
    assert_eq!("<a>hello</a>".find_text_between("<a>", 2), None);
    assert_eq!("<a>hello</a>".find_text_between("<a>", 0), None);
    assert_eq!("abcd".find_text_between("cd", -1), None);
    assert_eq!("a".find_text_between("b", -1), None);
}

#[test]
fn text_between_counts_bytes() {
    assert_eq!("né=été;".find_text_between("=", 9), Some("été"));
    assert_eq!("né=été;;".find_text_between("=", -1), Some("été"));
}

#[test]
fn append_one() {
    assert_eq!("solr".append("copy"), "solrcopy");
    assert_eq!("".append(""), "");
    assert_eq!("solr".append(""), "solr");
}

#[test]
fn append_many() {
    assert_eq!("a".append_all(&["b", "", "cd"]), "abcd");
    assert_eq!("a".append_all(&[]), "a");
}

#[test]
fn with_prefix_once() {
    assert_eq!("demo".with_prefix("/"), "/demo");
    assert_eq!("/demo".with_prefix("/"), "/demo");
    assert_eq!("".with_prefix("/"), "/");
}

#[test]
fn with_suffix_once() {
    assert_eq!("demo".with_suffix(".zip"), "demo.zip");
    assert_eq!("demo.zip".with_suffix(".zip"), "demo.zip");
    assert_eq!("zip".with_suffix(".zip"), "zip.zip");
}

#[test]
fn padding_in_front() {
    assert_eq!("7".pad(3), "  7");
    assert_eq!("7".pad_left(3), "  7");
    assert_eq!("7".pad_0(3), "007");
    assert_eq!("7".pad_0_left(3), "007");
    assert_eq!("7".pad_left_with(4, '*'), "***7");
    assert_eq!("abc".pad_left_with(3, '*'), "abc");
}

#[test]
fn padding_behind() {
    assert_eq!("7".pad_with(3, '-'), "7--");
    assert_eq!("abc".pad_with(3, '-'), "abc");
    assert_eq!("".pad_with(2, 'x'), "xx");
}

#[test]
fn padding_counts_bytes() {
    assert_eq!("é".pad_0(3), "0é");
    assert_eq!("é".pad_with(4, '.'), "é..");
}

#[test]
fn variable_or_replacement() {
    assert_eq!(env_var(Some("value".to_string()), "other"), "value");
    assert_eq!(env_var(Some(String::new()), "other"), "");
    assert_eq!(env_var(None, "other"), "other");
}

#[test]
fn numbers_are_read_in_base_ten() {
    assert_eq!(parse_isize("0"), Some(0));
    assert_eq!(parse_isize("8"), Some(8));
    assert_eq!(parse_isize("60"), Some(60));
    assert_eq!(parse_isize("+60"), Some(60));
    assert_eq!(parse_isize("-60"), Some(-60));
    assert_eq!(parse_isize("007"), Some(7));
    assert_eq!(parse_isize("-0"), Some(0));
}

#[test]
fn other_texts_are_no_numbers() {
    for text in ["", "+", "-", " 8", "8 ", "8s", "0x10", "1_000", "--1", "+-1", "1.5", "٣"] {
        assert_eq!(parse_isize(text), None, "{:?}", text);
    }
}

#[test]
fn numbers_that_do_not_fit() {
    assert_eq!(parse_isize(&isize::MAX.to_string()), Some(isize::MAX));
    assert_eq!(parse_isize(&isize::MIN.to_string()), Some(isize::MIN));
    assert_eq!(parse_isize("9223372036854775808"), "9223372036854775808".parse::<isize>().ok());
    assert_eq!(parse_isize("-9223372036854775809"), "-9223372036854775809".parse::<isize>().ok());
    assert_eq!(parse_isize("99999999999999999999999999999999999999999999"), None);
    assert_eq!(parse_isize("-99999999999999999999999999999999999999999999"), None);
}

#[test]
fn numbers_are_read_as_the_standard_library_reads_them() {
    let texts = [
        "0", "1", "-1", "+1", "12", "0012", "-0012", "+0", "2147483647", "2147483648",
        "-2147483648", "-2147483649", "9223372036854775807", "-9223372036854775808", "a", "1a",
        "a1", "", "+", "-", "++1", "1+", "1-1", " 1", "1 ", "١",
    ];
    for text in texts {
        assert_eq!(parse_isize(text), text.parse::<isize>().ok(), "{:?}", text);
    }
}

#[test]
fn value_or_replacement() {
    assert_eq!(env_value(Some("12"), 8), 12);
    assert_eq!(env_value(Some("-3"), 8), -3);
    assert_eq!(env_value(Some("twelve"), 8), 8);
    assert_eq!(env_value(Some(""), 60), 60);
    assert_eq!(env_value(None, 60), 60);
}

#[test]
fn integers_convert() {
    assert_eq!(7isize.to_u64(), 7u64);
    assert_eq!(7isize.to_usize(), 7usize);
    assert_eq!(0isize.to_u64(), 0u64);
    assert_eq!(isize::MAX.to_usize(), isize::MAX as usize);
    assert_eq!(7usize.to_u64(), 7u64);
    assert_eq!(7usize.to_usize(), 7usize);
    assert_eq!(usize::MAX.to_u64(), usize::MAX as u64);
    assert_eq!(7u64.to_u64(), 7u64);
    assert_eq!(7u64.to_usize(), 7usize);
}

#[test]
fn group_of_the_first_match() {
    let re = Matcher::new(r"(\w+)=(\d+)?").unwrap();
    assert_eq!(re.get_group("a=1, b=, c=3", 0), Some("a=1"));
    assert_eq!(re.get_group("a=1, b=, c=3", 1), Some("a"));
    assert_eq!(re.get_group("a=1, b=, c=3", 2), Some("1"));
    assert_eq!(re.get_group("a=1, b=, c=3", 3), None);
    assert_eq!(re.get_group("b=, c=3", 2), None);
    assert_eq!(re.get_group("nothing", 0), None);
}

#[test]
fn groups_of_the_first_match() {
    let re = Matcher::new(r"(\w+)=(\d+)?").unwrap();
    let groups = re.get_groups("b=, c=3").unwrap();
    assert_eq!(groups, Groups { texts: vec![Some("b="), Some("b"), None] });
    assert!(re.get_groups("nothing").is_none());
}

#[test]
fn group_of_every_match() {
    let re = Matcher::new(r"(\w+)=(\d+)?").unwrap();
    assert_eq!(re.get_group_values("a=1, b=, c=3", 2), vec!["1", "3"]);
    assert_eq!(re.get_group_values("a=1, b=, c=3", 1), vec!["a", "b", "c"]);
    assert_eq!(re.get_group_values("a=1, b=, c=3", 0), vec!["a=1", "b=", "c=3"]);
    assert_eq!(re.get_group_values("a=1, b=, c=3", 3), Vec::<&str>::new());
    assert_eq!(re.get_group_values("nothing", 0), Vec::<&str>::new());
}

#[test]
fn every_match() {
    let re = Matcher::new(r"\d+").unwrap();
    assert_eq!(re.get_matches("10 batches in 2 archives"), vec!["10", "2"]);
    assert_eq!(re.get_matches("none"), Vec::<&str>::new());
    assert_eq!(
        re.get_match_values("10 batches in 2 archives"),
        vec!["10".to_string(), "2".to_string()]
    );
    assert_eq!(re.get_match_values("none"), Vec::<String>::new());
}

#[test]
fn text_between_match_and_position() {
    let re = Matcher::new(r"<\w+>").unwrap();
    assert_eq!(re.match_text_between("<a>hello</a>", 8), Some("hello"));
    assert_eq!(re.match_text_between("<a>hello</a>", 100), Some("hello</a>"));
    assert_eq!(re.match_text_between("<a>hello;;", -1), Some("hello"));
    assert_eq!(re.match_text_between("<a>hello</a>", 3), None);
    assert_eq!(re.match_text_between("hello", 3), None);
    assert_eq!(re.match_text_between("<é>été;", 9), Some("été"));
}

#[test]
fn text_between_match_is_refused_where_it_cannot_be_cut() {
    let re = Matcher::new(r"=").unwrap();
    assert_eq!(re.match_text_between("=", -1), None);
    assert_eq!(re.match_text_between("", -1), None);
    assert_eq!(re.match_text_between("a=été", 3), None);
    assert_eq!(re.match_text_between("a=été", 6), None);
    assert_eq!(re.match_text_between("a=été", 5), Some("ét"));
}

#[test]
fn text_between_an_end_and_a_position() {
    assert_eq!(text_between("<a>hello</a>", Some(3), 8), Some("hello"));
    assert_eq!(text_between("<a>hello</a>", Some(3), -1), Some("hello</"));
    assert_eq!(text_between("<a>hello</a>", Some(3), 3), None);
    assert_eq!(text_between("<a>hello</a>", Some(12), 100), None);
    assert_eq!(text_between("<a>hello</a>", None, 8), None);
}

#[test]
fn group_as_text() {
    let re = Matcher::new(r"[a-z]+(?:([0-9]+)|([A-Z]+))").unwrap();
    let caps = re.get_groups("abc123").unwrap();
    assert_eq!(caps.get_as_str(1), "123");
    assert_eq!(caps.get_as_str(2), "");
    assert_eq!(caps.get_as_str(0), "abc123");
    assert_eq!(caps.get_as_str(3), "");
}

#[test]
fn group_as_text_or_replacement() {
    let re = Matcher::new(r"[a-z]+(?:([0-9]+)|([A-Z]+))").unwrap();
    let caps = re.get_groups("abc123").unwrap();
    assert_eq!(caps.get_as_str_or(1, ""), "123");
    assert_eq!(caps.get_as_str_or(2, "321"), "321");
    assert_eq!(caps.get_as_str_or(9, "none"), "none");
}

#[test]
fn numbers_are_written_in_base_ten() {
    assert_eq!(to_decimal(0), "0");
    assert_eq!(to_decimal(9), "9");
    assert_eq!(to_decimal(10), "10");
    assert_eq!(to_decimal(1905), "1905");
    assert_eq!(to_decimal(usize::MAX), usize::MAX.to_string());
}

#[test]
fn what_is_written_is_read_back() {
    for number in [0usize, 1, 9, 10, 11, 99, 100, 12345, isize::MAX as usize] {
        assert_eq!(parse_isize(&to_decimal(number)), Some(number as isize));
    }
}

#[test]
fn patterns_that_are_no_expressions() {
    assert!(Matcher::new(r"(\d+").is_none());
    assert!(Matcher::new(r"[a-").is_none());
    assert!(Matcher::new("").is_some());
    assert_eq!(Matcher::new(r"\d+").unwrap().as_str(), r"\d+");
}

#[test]
fn an_expression_that_matches_the_empty_text() {
    let re = Matcher::new(r"x*").unwrap();
    assert_eq!(re.get_matches("ab"), vec!["", "", ""]);
    assert_eq!(re.get_group("ab", 0), Some(""));
    assert_eq!(re.match_text_between("ab", 1), Some("a"));
}

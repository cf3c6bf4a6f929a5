use hoarder::query::{QueryParser, QueryParserInterface};

#[test]
fn single_word() {
    let query_parser = QueryParser::new();

    let actual = query_parser.parse("keyword");
    assert_eq!(actual, vec!["keyword"]);

    let actual = query_parser.parse(r#"" keyword1  keyword2""#);
    assert_eq!(actual, vec![" keyword1  keyword2"]);
}

#[test]
fn multiple_words() {
    let query_parser = QueryParser::new();

    let actual = query_parser.parse("keyword1 keyword2   keyword3 　keyword4");
    assert_eq!(actual, vec!["keyword1", "keyword2", "keyword3", "keyword4"]);

    let actual = query_parser.parse(r#"keyword1 keyword2  " keyword3  keyword4"　keyword5"#);
    assert_eq!(actual, vec!["keyword1", "keyword2", " keyword3  keyword4", "keyword5"]);
}

#[test]
fn unclosed_quote_is_part_of_a_word() {
    let query_parser = QueryParser::new();

    let actual = query_parser.parse(r#"a "b c"#);
    assert_eq!(actual, vec!["a", "\"b", "c"]);
}

#[test]
fn quote_does_not_cross_a_line_break() {
    let query_parser = QueryParser::new();

    let actual = query_parser.parse("\"a\nb\" c");
    assert_eq!(actual, vec!["\"a\nb\"", "c"]);
}

#[test]
fn empty_quotes_give_an_empty_keyword() {
    let query_parser = QueryParser::new();

    let actual = query_parser.parse(r#"x "" y"#);
    assert_eq!(actual, vec!["x", "", "y"]);
}

#[test]
fn only_separators_give_nothing() {
    let query_parser = QueryParser::new();

    let actual = query_parser.parse("  　 ");
    assert!(actual.is_empty());
    assert!(query_parser.parse("").is_empty());
}

#[test]
fn quoted_keyword_next_to_a_word() {
    let query_parser = QueryParser::new();

    let actual = query_parser.parse(r#"ab"c d"e"#);
    assert_eq!(actual, vec!["ab\"c", "d\"e"]);
}

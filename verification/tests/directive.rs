use paykan::directive::{
    go_onward, parse, parse_block, parse_directive, ParameterType, Scanner, Signal, SyntaxError,
};

#[test]
fn works() {
    let result = &parse(
        r#"
directive1 'par1' par3 "'a" {
    hello 'test';
    hi a;
}
dir2;
        "#,
    )
    .unwrap();
    assert_eq!(result.directives.len(), 2);
    let directive1 = result.directives.get(0).unwrap();
    assert_eq!(directive1.parameters.len(), 3);
    assert_eq!(directive1.name, "directive1");
    let params = &directive1.parameters;

    assert_eq!(params.get(0).unwrap().0, ParameterType::SingleQuote);
    assert_eq!(params.get(1).unwrap().0, ParameterType::Simple);
    assert_eq!(params.get(2).unwrap().0, ParameterType::DoubleQuote);
    assert_eq!(params.get(0).unwrap().1, "par1");
    assert_eq!(params.get(1).unwrap().1, "par3");
    assert_eq!(params.get(2).unwrap().1, "'a");

    let block = directive1.block.as_ref().unwrap();
    assert_eq!(block.directives.len(), 2);
    assert_eq!(block.directives.get(0).unwrap().name, "hello");
    assert_eq!(block.directives.get(1).unwrap().name, "hi");
    assert_eq!(block.directives.get(0).unwrap().parameters.len(), 1);
    assert_eq!(block.directives.get(1).unwrap().parameters.len(), 1);
    assert_eq!(
        block
            .directives
            .get(0)
            .unwrap()
            .parameters
            .get(0)
            .unwrap()
            .0,
        ParameterType::SingleQuote
    );
    assert_eq!(
        block
            .directives
            .get(0)
            .unwrap()
            .parameters
            .get(0)
            .unwrap()
            .1,
        "test"
    );

    let directive2 = result.directives.get(1).unwrap();
    assert_eq!(directive2.name, "dir2");
    assert_eq!(directive2.parameters.len(), 0);
    assert!(directive2.block.is_none());
}

#[test]
fn directive_leaves_the_text_after_its_semicolon() {
    let (d, rest) = parse_directive("listen 127.0.0.1:8080; next;").unwrap();
    assert_eq!(d.name, "listen");
    assert_eq!(d.parameters.len(), 1);
    assert_eq!(d.parameters[0].0, ParameterType::Simple);
    assert_eq!(d.parameters[0].1, "127.0.0.1:8080");
    assert!(d.block.is_none());
    assert_eq!(rest, " next;");
}

#[test]
fn directive_consumes_the_brace_that_closes_its_block() {
    let (d, rest) = parse_directive("a {b;}c;").unwrap();
    assert_eq!(d.name, "a");
    let block = d.block.unwrap();
    assert_eq!(block.directives.len(), 1);
    assert_eq!(block.directives[0].name, "b");
    assert_eq!(rest, "c;");
}

#[test]
fn semicolon_ends_a_directive_inside_quotes() {
    let (d, rest) = parse_directive("a 'b;c';").unwrap();
    assert_eq!(d.parameters.len(), 1);
    assert_eq!(d.parameters[0].0, ParameterType::SingleQuote);
    assert_eq!(d.parameters[0].1, "b");
    assert_eq!(rest, "c';");
}

#[test]
fn empty_quotes_give_an_empty_parameter() {
    let (d, _) = parse_directive("a \"\" '';").unwrap();
    assert_eq!(d.parameters.len(), 2);
    assert_eq!(d.parameters[0].0, ParameterType::DoubleQuote);
    assert_eq!(d.parameters[0].1, "");
    assert_eq!(d.parameters[1].0, ParameterType::SingleQuote);
    assert_eq!(d.parameters[1].1, "");
}

#[test]
fn parameter_cut_short_by_the_end_is_dropped() {
    let (d, rest) = parse_directive("a b").unwrap();
    assert_eq!(d.name, "a");
    assert_eq!(d.parameters.len(), 0);
    assert_eq!(rest, "");
}

#[test]
fn line_ends_before_a_name_are_skipped() {
    let (d, rest) = parse_directive("\r\n  name;").unwrap();
    assert_eq!(d.name, "name");
    assert_eq!(rest, "");
}

#[test]
fn tab_before_a_name_belongs_to_it() {
    let (d, _) = parse_directive("\tname;").unwrap();
    assert_eq!(d.name, "\tname");
}

#[test]
fn directive_of_no_text_is_refused() {
    assert_eq!(parse_directive("").unwrap_err(), SyntaxError::Empty);
}

#[test]
fn name_starting_with_a_number_is_refused() {
    assert_eq!(parse_directive("  7up;").unwrap_err(), SyntaxError::Number('7'));
    assert_eq!(parse("a { 1b; }").unwrap_err(), SyntaxError::Number('1'));
    assert_eq!(parse("\u{0663};").unwrap_err(), SyntaxError::Number('\u{0663}'));
}

#[test]
fn number_inside_a_name_is_accepted() {
    let (d, _) = parse_directive("dir2;").unwrap();
    assert_eq!(d.name, "dir2");
}

#[test]
fn unclosed_block_is_refused() {
    assert_eq!(parse("a {b;").unwrap_err(), SyntaxError::Unclosed);
    assert_eq!(parse("a {   ").unwrap_err(), SyntaxError::Unclosed);
    assert_eq!(parse_directive("a {").unwrap_err(), SyntaxError::Unclosed);
}

#[test]
fn blank_text_is_an_empty_block() {
    assert_eq!(parse("").unwrap().directives.len(), 0);
    assert_eq!(parse(" \t\n ").unwrap().directives.len(), 0);
}

#[test]
fn block_stops_at_a_closing_brace() {
    let (block, rest) = parse_block("  a; } b;").unwrap();
    assert_eq!(block.directives.len(), 1);
    assert_eq!(rest, "} b;");
    let (block, rest) = parse_block("}").unwrap();
    assert_eq!(block.directives.len(), 0);
    assert_eq!(rest, "}");
}

#[test]
fn whitespace_after_the_last_directive_is_dropped() {
    let (block, rest) = parse_block("a;\u{a0}\r\n").unwrap();
    assert_eq!(block.directives.len(), 1);
    assert_eq!(rest, "");
}

#[test]
fn text_beyond_ascii_is_read_by_characters() {
    let (d, rest) = parse_directive("server_name \"\u{fc}ber\"; x;").unwrap();
    assert_eq!(d.parameters[0].1, "\u{fc}ber");
    assert_eq!(rest, " x;");
}

#[test]
fn scanner_reads_a_directive_character_by_character() {
    let mut scanner = Scanner::new();
    assert_eq!(scanner.feed(' ', false), Signal::Next);
    assert_eq!(scanner.feed('a', false), Signal::Next);
    assert_eq!(scanner.feed('1', true), Signal::Next);
    assert_eq!(scanner.feed(' ', false), Signal::Next);
    assert_eq!(scanner.feed('"', false), Signal::Next);
    assert_eq!(scanner.feed('x', false), Signal::Next);
    assert_eq!(scanner.feed(' ', false), Signal::Next);
    assert_eq!(scanner.feed('"', false), Signal::Next);
    assert_eq!(scanner.feed('y', false), Signal::Next);
    assert_eq!(scanner.feed('\t', false), Signal::Next);
    assert_eq!(scanner.feed(' ', false), Signal::Next);
    assert_eq!(scanner.feed('{', false), Signal::Open);
    let d = scanner.finish(None);
    assert_eq!(d.name, "a1");
    assert_eq!(d.parameters.len(), 2);
    assert_eq!(d.parameters[0].0, ParameterType::DoubleQuote);
    assert_eq!(d.parameters[0].1, "x ");
    assert_eq!(d.parameters[1].0, ParameterType::Simple);
    assert_eq!(d.parameters[1].1, "y");
    assert!(d.block.is_none());
}

#[test]
fn scanner_refuses_a_number_only_before_the_name() {
    let mut scanner = Scanner::new();
    assert_eq!(scanner.feed('\n', false), Signal::Next);
    assert_eq!(scanner.feed('4', true), Signal::Reject);
    assert_eq!(scanner.feed('x', false), Signal::Next);
    assert_eq!(scanner.feed('4', true), Signal::Next);
    assert_eq!(scanner.feed(';', false), Signal::End);
    assert_eq!(scanner.finish(None).name, "x4");
}

#[test]
fn scanner_ends_a_directive_at_a_semicolon_in_every_phase() {
    let mut scanner = Scanner::new();
    assert_eq!(scanner.feed('a', false), Signal::Next);
    assert_eq!(scanner.feed(' ', false), Signal::Next);
    assert_eq!(scanner.feed(';', false), Signal::End);
    assert_eq!(scanner.finish(None).parameters.len(), 0);

    let mut scanner = Scanner::new();
    assert_eq!(scanner.feed('a', false), Signal::Next);
    assert_eq!(scanner.feed(' ', false), Signal::Next);
    assert_eq!(scanner.feed('b', false), Signal::Next);
    assert_eq!(scanner.feed(';', false), Signal::End);
    let d = scanner.finish(None);
    assert_eq!(d.parameters.len(), 1);
    assert_eq!(d.parameters[0].1, "b");
}

#[test]
fn block_goes_on_unless_only_whitespace_is_left() {
    assert_eq!(go_onward(" a; ", "a;"), Some(" a; "));
    assert_eq!(go_onward("  \n", ""), None);
    assert_eq!(go_onward("", ""), None);
}

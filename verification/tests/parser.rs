use canal::parser::{
    indented_block, indented_parse_blocks, indented_parse_child_end_mark, indented_parse_construct,
    indented_parse_construct_info, indented_parse_line, parse_key_value, parse_key_value_list,
    parse_valid_name, parse_value_string, trim_empty_strings_at_vec_end, Block, NotebookParsed,
};

fn bytes(s: &str) -> Vec<u8> {
    s.as_bytes().to_vec()
}

fn kv(key: &str, value: &str) -> (Vec<u8>, Vec<u8>) {
    (bytes(key), bytes(value))
}

fn value_block(line: &str) -> Block {
    Block::Value(bytes(line))
}

fn construct(name: &str, options: Vec<(Vec<u8>, Vec<u8>)>, childs: Vec<Block>) -> Block {
    Block::Construct { name: bytes(name), options, childs }
}

#[test]
fn parsing_a_key_value_pair() {
    let input = "a: 1.00";
    let result = parse_key_value(input.as_bytes(), 0);
    let expected = kv("a", "1.00");
    let (pos, parsed) = result.expect("the pair should parse");
    assert_eq!(pos, input.len());
    assert_eq!(parsed, expected);
}

#[test]
fn parsing_a_list_of_key_value_pairs() {
    let input = "[ a:1 ,b:2]";
    let (pos, parsed) = parse_key_value_list(input.as_bytes(), 0);
    let expected = vec![kv("a", "1"), kv("b", "2")];
    assert_eq!(pos, input.len());
    assert_eq!(parsed, expected);
}

#[test]
fn parsing_an_indented_line() {
    let input = "  value indent 1";
    let result = indented_parse_line(input.as_bytes(), 0, 1);
    let (pos, parsed) = result.expect("the line should parse");
    assert_eq!(pos, input.len());
    assert_eq!(parsed, bytes("value indent 1"));
}

#[test]
fn parsing_a_block() {
    let input = "block executable [echo: true] =\n  value in first line\n  value in second line\n";
    let result = indented_parse_construct(input.as_bytes(), 0, 0);
    let expected = construct(
        "executable",
        vec![kv("echo", "true")],
        vec![value_block("value in first line"), value_block("value in second line")],
    );
    let (_, parsed) = result.expect("the block should parse");
    assert_eq!(parsed, expected);
}

#[test]
fn parsing_multi_blocks() {
    // Empty lines between blocks carry the child indentation.
    let input = "block text =\n  value1\n  \nblock text =\n  value2\n  \n";
    let (_, parsed) = indented_parse_blocks(input.as_bytes(), 0, 0);
    let expected = vec![
        construct("text", vec![], vec![value_block("value1")]),
        construct("text", vec![], vec![value_block("value2")]),
    ];
    assert_eq!(parsed, expected);
}

#[test]
fn parsing_a_block_with_empty_config() {
    let input = "block text =\n  value\n";
    let result = indented_parse_construct(input.as_bytes(), 0, 0);
    let expected = construct("text", vec![], vec![value_block("value")]);
    let (_, parsed) = result.expect("the block should parse");
    assert_eq!(parsed, expected);
}

#[test]
fn parsing_rejects_a_missing_start_mark() {
    let input = "block text\n  value\n";
    assert!(indented_parse_construct(input.as_bytes(), 0, 0).is_none());
}

#[test]
fn parsing_a_name_stops_at_the_first_other_byte() {
    let result = parse_valid_name(b"abc_1: rest", 0);
    let (pos, parsed) = result.expect("the name should parse");
    assert_eq!(pos, 5);
    assert_eq!(parsed, b"abc_1".to_vec());
    assert!(parse_valid_name(b": rest", 0).is_none());
}

#[test]
fn parsing_a_value_accepts_dots_and_dashes() {
    let result = parse_value_string(b"v1.2-rc ", 0);
    let (pos, parsed) = result.expect("the value should parse");
    assert_eq!(pos, 7);
    assert_eq!(parsed, b"v1.2-rc".to_vec());
}

#[test]
fn parsing_construct_info_yields_name_and_options() {
    let input = "block run [echo: true] =";
    let result = indented_parse_construct_info(input.as_bytes(), 0, 0);
    let (pos, (name, options)) = result.expect("the header should parse");
    assert_eq!(name, bytes("run"));
    assert_eq!(options, vec![kv("echo", "true")]);
    // The header ends after the option list, before the start mark.
    assert_eq!(pos, input.len() - 2);
}

#[test]
fn peeking_the_child_end_mark() {
    let more = "\nblock next =";
    assert!(indented_parse_child_end_mark(more.as_bytes(), 0, 0).is_some());
    let done = "\nno more blocks";
    assert!(indented_parse_child_end_mark(done.as_bytes(), 0, 0).is_none());
}

#[test]
fn an_indented_block_is_a_line_when_one_matches() {
    let result = indented_block(b"  plain line\n", 0, 1);
    let (_, parsed) = result.expect("the line should parse");
    assert_eq!(parsed, value_block("plain line"));
}

#[test]
fn trimming_removes_only_trailing_empty_lines() {
    let values = vec![bytes("a"), bytes(""), bytes("b"), bytes(""), bytes("")];
    let trimmed = trim_empty_strings_at_vec_end(values);
    assert_eq!(trimmed, vec![bytes("a"), bytes(""), bytes("b")]);

    let all_empty = vec![bytes(""), bytes("")];
    assert_eq!(trim_empty_strings_at_vec_end(all_empty), Vec::<Vec<u8>>::new());
}

#[test]
fn parsing_a_notebook_source() {
    let source = "block text =\n  hello\n";
    let parsed = NotebookParsed::parse(source);
    assert_eq!(parsed.language, String::new());
    assert_eq!(parsed.blocks, vec![construct("text", vec![], vec![value_block("hello")])]);
}

#[test]
fn parsing_lines_with_carriage_returns() {
    let input = "  one\r\n  two\r\n";
    let result = indented_parse_line(input.as_bytes(), 0, 1);
    let (pos, parsed) = result.expect("the line should parse");
    assert_eq!(parsed, bytes("one"));
    assert_eq!(pos, 7);
}

#[test]
fn parsing_a_key_value_pair_with_tabs() {
    let input = "key\t: \tvalue";
    let result = parse_key_value(input.as_bytes(), 0);
    let (pos, parsed) = result.expect("the pair should parse");
    assert_eq!(pos, input.len());
    assert_eq!(parsed, kv("key", "value"));
}

#[test]
fn parsing_an_empty_source() {
    let parsed = NotebookParsed::parse("");
    assert_eq!(parsed.blocks, Vec::<Block>::new());
}

#[test]
fn parsing_stops_before_what_is_not_a_block() {
    let input = "block text =\n  value\nplain trailing line\n";
    let (pos, parsed) = indented_parse_blocks(input.as_bytes(), 0, 0);
    assert_eq!(parsed, vec![construct("text", vec![], vec![value_block("value")])]);
    assert_eq!(&input.as_bytes()[pos..], "plain trailing line\n".as_bytes());
}

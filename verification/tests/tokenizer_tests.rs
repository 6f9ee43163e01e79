use shell_core::tokenizer::parse_args;

fn toks(line: &str) -> Vec<String> {
    parse_args(line)
}

#[test]
fn plain_input_is_whitespace_split() {
    assert_eq!(toks("echo  a   b"), vec!["echo", "a", "b"]);
}

#[test]
fn tabs_separate_tokens() {
    assert_eq!(toks("a\tb  \t c"), vec!["a", "b", "c"]);
}

#[test]
fn empty_input_yields_no_tokens() {
    assert_eq!(toks(""), Vec::<String>::new());
    assert_eq!(toks("   "), Vec::<String>::new());
}

#[test]
fn single_quotes_preserve_spaces() {
    assert_eq!(toks("echo 'a  b'"), vec!["echo", "a  b"]);
}

#[test]
fn single_quotes_take_backslash_literally() {
    assert_eq!(toks("echo 'a\\nb'"), vec!["echo", "a\\nb"]);
    assert_eq!(toks("echo 'a\"b'"), vec!["echo", "a\"b"]);
}

#[test]
fn double_quote_backslash_escapes_quote() {
    assert_eq!(toks("echo \"a\\\"b\""), vec!["echo", "a\"b"]);
}

#[test]
fn double_quote_backslash_escapes_backslash() {
    assert_eq!(toks("echo \"a\\\\b\""), vec!["echo", "a\\b"]);
}

#[test]
fn double_quote_backslash_stays_before_plain_char() {
    assert_eq!(toks("echo \"a\\nb\""), vec!["echo", "a\\nb"]);
}

#[test]
fn double_quotes_preserve_spaces_and_single_quotes() {
    assert_eq!(toks("echo \"a  'b'\""), vec!["echo", "a  'b'"]);
}

#[test]
fn adjacent_quoted_segments_concatenate() {
    assert_eq!(toks("'foo'\"bar\""), vec!["foobar"]);
    assert_eq!(toks("a'b'\"c\"d"), vec!["abcd"]);
}

#[test]
fn empty_quoted_segment_alone_contributes_nothing() {
    assert_eq!(toks("''"), Vec::<String>::new());
    assert_eq!(toks("\"\""), Vec::<String>::new());
}

#[test]
fn empty_quoted_segment_adjacent_to_content_is_kept() {
    assert_eq!(toks("a''"), vec!["a"]);
    assert_eq!(toks("''b"), vec!["b"]);
}

#[test]
fn unquoted_backslash_escapes_next_char() {
    assert_eq!(toks("a\\ b"), vec!["a b"]);
    assert_eq!(toks("a\\'b"), vec!["a'b"]);
    assert_eq!(toks("a\\\"b"), vec!["a\"b"]);
    assert_eq!(toks("a\\\\b"), vec!["a\\b"]);
    assert_eq!(toks("\\ab"), vec!["ab"]);
}

#[test]
fn unterminated_quote_is_flushed_permissively() {
    assert_eq!(toks("echo 'abc"), vec!["echo", "abc"]);
    assert_eq!(toks("echo \"abc"), vec!["echo", "abc"]);
}

#[test]
fn trailing_backslash_is_dropped() {
    assert_eq!(toks("abc\\"), vec!["abc"]);
    assert_eq!(toks("\"abc\\"), vec!["abc"]);
}

#[test]
fn rejoining_plain_tokens_tokenizes_back() {
    let original = toks("echo alpha beta42 gamma");
    let rejoined = original.join(" ");
    assert_eq!(toks(&rejoined), original);
}

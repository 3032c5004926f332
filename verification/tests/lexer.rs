use mqtt_toolkit::cli::shell::lexer::{count_quotes, try_into_args, ParseError};

fn words(input: &str) -> Vec<String> {
    try_into_args(input).unwrap()
}

#[test]
fn splits_on_blanks() {
    assert_eq!(words("connect -h  localhost\t-p 1883\n"), vec!["connect", "-h", "localhost", "-p", "1883"]);
}

#[test]
fn empty_input_gives_no_words() {
    assert_eq!(words(""), Vec::<String>::new());
    assert_eq!(words("   \t\n"), Vec::<String>::new());
}

#[test]
fn single_quotes_keep_everything() {
    assert_eq!(words("publish 'a b' 'x\\y\"z'"), vec!["publish", "a b", "x\\y\"z"]);
}

#[test]
fn double_quotes_and_escapes() {
    assert_eq!(words("say \"a \\\"b\\\" c\""), vec!["say", "a \"b\" c"]);
    assert_eq!(words("\"a\\$b\""), vec!["a$b"]);
    assert_eq!(words("\"a\\qb\""), vec!["a\\qb"]);
}

#[test]
fn backslash_outside_quotes() {
    assert_eq!(words("a\\ b c"), vec!["a b", "c"]);
    assert_eq!(words("a\\\nb"), vec!["ab"]);
    assert_eq!(words("trailing\\"), vec!["trailing\\"]);
}

#[test]
fn adjacent_quotes_join_words() {
    assert_eq!(words("ab'cd'\"ef\""), vec!["abcdef"]);
    assert_eq!(words("''"), vec![""]);
}

#[test]
fn unterminated_quote_is_an_error() {
    assert_eq!(try_into_args("say 'hello"), Err(ParseError));
    assert_eq!(try_into_args("say \"hello"), Err(ParseError));
    assert_eq!(ParseError.message(), "missing closing quote");
}

#[test]
fn count_quotes_tracks_open_quotes() {
    let mut stack: Vec<char> = Vec::new();
    count_quotes("say \"it's", &mut stack);
    assert_eq!(stack, vec!['"']);
    count_quotes("done\"", &mut stack);
    assert_eq!(stack, Vec::<char>::new());
    count_quotes("'a'b'", &mut stack);
    assert_eq!(stack, vec!['\'']);
}

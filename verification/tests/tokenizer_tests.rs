use notation::args::{parse_doc_args, split_args, NotationDocArguments};

#[test]
fn test_split_args() {
    let arg_string = "bin --title \"Hello, world!\"";
    let args = split_args(arg_string);
    assert_eq!(args, vec!["bin", "--title", "Hello, world!"]);
}

#[test]
fn test_trim() {
    let arg_string = "\n\n\n";
    assert!(arg_string.trim().is_empty());
}

#[test]
fn test_doc_arguments() {
    let arg_string = "--emoji 😮‍💨";
    let args = parse_doc_args(&split_args(arg_string)).unwrap();
    assert_eq!(args.emoji.as_deref(), Some("😮‍💨"));
    assert_eq!(args.title, None);
}

#[test]
fn split_args_keeps_empty_quoted_token() {
    assert_eq!(split_args("a \"\" b"), vec!["a", "", "b"]);
}

#[test]
fn split_args_unterminated_quote_runs_to_end() {
    assert_eq!(split_args("\"open end"), vec!["open end"]);
}

#[test]
fn split_args_empty_input() {
    assert_eq!(split_args(""), Vec::<String>::new());
    assert_eq!(split_args("   \t  "), Vec::<String>::new());
}

#[test]
fn doc_args_title_and_emoji() {
    let args = parse_doc_args(&split_args("--title \"My Page\" --emoji 🎉")).unwrap();
    assert_eq!(args.title.as_deref(), Some("My Page"));
    assert_eq!(args.emoji.as_deref(), Some("🎉"));
}

#[test]
fn doc_args_short_flags() {
    let args = parse_doc_args(&split_args("-t Notes -e 🙂")).unwrap();
    assert_eq!(args.title.as_deref(), Some("Notes"));
    assert_eq!(args.emoji.as_deref(), Some("🙂"));
}

#[test]
fn doc_args_unknown_token_fails() {
    assert!(parse_doc_args(&split_args("Hello world")).is_none());
}

#[test]
fn doc_args_missing_value_fails() {
    assert!(parse_doc_args(&split_args("--title")).is_none());
}

#[test]
fn doc_args_repeated_option_fails() {
    assert!(parse_doc_args(&split_args("--title a --title b")).is_none());
}

#[test]
fn doc_args_empty_is_default() {
    let args = parse_doc_args(&Vec::new()).unwrap();
    assert!(args.title.is_none());
    assert!(args.emoji.is_none());
    let d = NotationDocArguments::default();
    assert!(d.title.is_none() && d.emoji.is_none());
}

use rush::command::{Command, Operator, RedirectOperator, RedirectTarget, Redirection};
use rush::lexer::Lexer;
use rush::parser::{parse_descriptor, Parser};

fn parse_line(s: &str) -> Result<Command, String> {
    let lexer = Lexer::new(s.to_string());
    let mut parser = Parser::new(lexer);
    parser.parse()
}

fn simple(executable: &str, args: &[&str]) -> Command {
    Command::Simple {
        executable: executable.to_string(),
        args: args.iter().map(|a| a.to_string()).collect(),
        redirects: vec![],
    }
}

#[test]
fn parse_simple_command() {
    assert_eq!(
        parse_line("echo hello world"),
        Ok(simple("echo", &["hello", "world"]))
    );
}

#[test]
fn parse_reconstructs_typed_words() {
    // Quote delimiters are stripped; escapes resolve inside double quotes
    // only; the words come back in the order typed.
    assert_eq!(
        parse_line("echo 'a b' \"c\\\"d\" plain"),
        Ok(simple("echo", &["a b", "c\"d", "plain"]))
    );
}

#[test]
fn parse_and_chain() {
    assert_eq!(
        parse_line("false && echo hi"),
        Ok(Command::Binary {
            left: Box::new(simple("false", &[])),
            right: Box::new(simple("echo", &["hi"])),
            operator: Operator::And,
        })
    );
}

#[test]
fn parse_or_chain() {
    assert_eq!(
        parse_line("true || echo hi"),
        Ok(Command::Binary {
            left: Box::new(simple("true", &[])),
            right: Box::new(simple("echo", &["hi"])),
            operator: Operator::Or,
        })
    );
}

#[test]
fn parse_background_then_command() {
    assert_eq!(
        parse_line("sleep 1 & echo done"),
        Ok(Command::Binary {
            left: Box::new(simple("sleep", &["1"])),
            right: Box::new(simple("echo", &["done"])),
            operator: Operator::Background,
        })
    );
}

#[test]
fn parse_pipeline() {
    assert_eq!(
        parse_line("printf 'x\ny\n' | wc -l"),
        Ok(Command::Binary {
            left: Box::new(simple("printf", &["x\ny\n"])),
            right: Box::new(simple("wc", &["-l"])),
            operator: Operator::Pipe,
        })
    );
}

#[test]
fn parse_pipe_binds_tighter_than_and() {
    assert_eq!(
        parse_line("a | b && c"),
        Ok(Command::Binary {
            left: Box::new(Command::Binary {
                left: Box::new(simple("a", &[])),
                right: Box::new(simple("b", &[])),
                operator: Operator::Pipe,
            }),
            right: Box::new(simple("c", &[])),
            operator: Operator::And,
        })
    );
}

#[test]
fn parse_equal_precedence_is_left_associative() {
    assert_eq!(
        parse_line("a ; b ; c"),
        Ok(Command::Binary {
            left: Box::new(Command::Binary {
                left: Box::new(simple("a", &[])),
                right: Box::new(simple("b", &[])),
                operator: Operator::Semicolon,
            }),
            right: Box::new(simple("c", &[])),
            operator: Operator::Semicolon,
        })
    );
}

#[test]
fn parse_redirect_overwrite_default_descriptor() {
    assert_eq!(
        parse_line("echo hi > out.txt"),
        Ok(Command::Simple {
            executable: "echo".to_string(),
            args: vec!["hi".to_string()],
            redirects: vec![Redirection {
                fd: Some(1),
                operator: RedirectOperator::Overwrite,
                target: RedirectTarget::File("out.txt".to_string()),
            }],
        })
    );
}

#[test]
fn parse_redirect_input_and_append() {
    assert_eq!(
        parse_line("sort < in.txt >> out.txt"),
        Ok(Command::Simple {
            executable: "sort".to_string(),
            args: vec![],
            redirects: vec![
                Redirection {
                    fd: Some(0),
                    operator: RedirectOperator::Input,
                    target: RedirectTarget::File("in.txt".to_string()),
                },
                Redirection {
                    fd: Some(1),
                    operator: RedirectOperator::Append,
                    target: RedirectTarget::File("out.txt".to_string()),
                },
            ],
        })
    );
}

#[test]
fn parse_redirect_explicit_descriptor() {
    // A word that reads as a number right after the operator overrides the
    // default descriptor; the next word is the target.
    assert_eq!(
        parse_line("prog > 2 err.txt"),
        Ok(Command::Simple {
            executable: "prog".to_string(),
            args: vec![],
            redirects: vec![Redirection {
                fd: Some(2),
                operator: RedirectOperator::Overwrite,
                target: RedirectTarget::File("err.txt".to_string()),
            }],
        })
    );
}

#[test]
fn parse_two_redirects_same_descriptor_kept_in_order() {
    // Both redirects aim at descriptor 1; they are kept in the order typed,
    // and applying them in that order means the later one wins.
    assert_eq!(
        parse_line("echo hi > a.txt > b.txt"),
        Ok(Command::Simple {
            executable: "echo".to_string(),
            args: vec!["hi".to_string()],
            redirects: vec![
                Redirection {
                    fd: Some(1),
                    operator: RedirectOperator::Overwrite,
                    target: RedirectTarget::File("a.txt".to_string()),
                },
                Redirection {
                    fd: Some(1),
                    operator: RedirectOperator::Overwrite,
                    target: RedirectTarget::File("b.txt".to_string()),
                },
            ],
        })
    );
}

#[test]
fn parse_empty_input_is_an_error() {
    assert_eq!(parse_line(""), Err("Empty command".to_string()));
    assert_eq!(parse_line("   "), Err("Empty command".to_string()));
}

#[test]
fn parse_leading_operator_is_an_error() {
    assert_eq!(parse_line("&& x"), Err("Empty command".to_string()));
    assert_eq!(parse_line("| x"), Err("Empty command".to_string()));
}

#[test]
fn parse_dangling_operator_is_an_error() {
    assert_eq!(parse_line("a &&"), Err("Empty command".to_string()));
}

#[test]
fn parse_redirect_without_target_is_an_error() {
    assert_eq!(parse_line("echo >"), Err("Invalid redirect target".to_string()));
    assert_eq!(
        parse_line("echo > | x"),
        Err("Invalid redirect target".to_string())
    );
}

#[test]
fn reparsing_gives_identical_trees() {
    // The parser is a pure function of the token stream: parsing the same
    // line twice gives structurally identical command trees.
    let lines = [
        "echo hello",
        "a | b && c ; d & e",
        "sort < in.txt >> out.txt",
        "false && echo hi",
    ];
    for line in lines {
        let first = parse_line(line);
        let second = parse_line(line);
        assert_eq!(first, second);
    }
}

#[test]
fn parse_descriptor_accepts_plain_numbers() {
    assert_eq!(parse_descriptor(&"2".to_string()), Some(2));
    assert_eq!(parse_descriptor(&"0".to_string()), Some(0));
    assert_eq!(parse_descriptor(&"007".to_string()), Some(7));
    assert_eq!(parse_descriptor(&"+15".to_string()), Some(15));
    assert_eq!(parse_descriptor(&"4294967295".to_string()), Some(u32::MAX));
}

#[test]
fn parse_descriptor_rejects_everything_else() {
    assert_eq!(parse_descriptor(&"".to_string()), None);
    assert_eq!(parse_descriptor(&"+".to_string()), None);
    assert_eq!(parse_descriptor(&"abc".to_string()), None);
    assert_eq!(parse_descriptor(&"12x".to_string()), None);
    assert_eq!(parse_descriptor(&"-1".to_string()), None);
    assert_eq!(parse_descriptor(&"4294967296".to_string()), None);
    assert_eq!(parse_descriptor(&"99999999999999999999".to_string()), None);
}

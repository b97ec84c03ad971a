use rush::command::{Command, Operator, RedirectOperator, RedirectTarget, Redirection};
use rush::engine::{
    cd_target, chain_status, default_descriptor, echo_text, open_mode, runs_right, OpenMode,
};

fn strings(words: &[&str]) -> Vec<String> {
    words.iter().map(|w| w.to_string()).collect()
}

#[test]
fn and_runs_right_only_after_success() {
    // `false && echo hi`: the right side never runs and the chain reports
    // the left status.
    assert!(!runs_right(Operator::And, 1));
    assert_eq!(chain_status(Operator::And, 1, 0), 1);
    // `true && b`: the right side runs and its status is reported.
    assert!(runs_right(Operator::And, 0));
    assert_eq!(chain_status(Operator::And, 0, 7), 7);
}

#[test]
fn or_runs_right_only_after_failure() {
    // `true || echo hi`: the right side never runs and the chain reports 0.
    assert!(!runs_right(Operator::Or, 0));
    assert_eq!(chain_status(Operator::Or, 0, 9), 0);
    // `false || b`: the right side runs and its status is reported.
    assert!(runs_right(Operator::Or, 1));
    assert_eq!(chain_status(Operator::Or, 1, 9), 9);
}

#[test]
fn semicolon_always_runs_both_and_reports_right() {
    // `false ; echo hi`: both run, the right status is reported.
    assert!(runs_right(Operator::Semicolon, 0));
    assert!(runs_right(Operator::Semicolon, 1));
    assert_eq!(chain_status(Operator::Semicolon, 1, 0), 0);
    assert_eq!(chain_status(Operator::Semicolon, 0, 3), 3);
}

#[test]
fn pipeline_reports_the_right_stage() {
    assert!(runs_right(Operator::Pipe, 0));
    assert_eq!(chain_status(Operator::Pipe, 1, 0), 0);
    assert_eq!(chain_status(Operator::Pipe, 0, 2), 2);
}

#[test]
fn background_never_blocks_the_right_side() {
    // `sleep 1 & echo done`: the right side runs whatever the left will
    // report, and its status is the chain's.
    assert!(runs_right(Operator::Background, 0));
    assert!(runs_right(Operator::Background, 127));
    assert_eq!(chain_status(Operator::Background, 127, 0), 0);
}

#[test]
fn default_descriptors_follow_the_operator() {
    assert_eq!(default_descriptor(RedirectOperator::Input), 0);
    assert_eq!(default_descriptor(RedirectOperator::HereDoc), 0);
    assert_eq!(default_descriptor(RedirectOperator::DuplicateIn), 0);
    assert_eq!(default_descriptor(RedirectOperator::Overwrite), 1);
    assert_eq!(default_descriptor(RedirectOperator::Append), 1);
    assert_eq!(default_descriptor(RedirectOperator::DuplicateOut), 1);
}

#[test]
fn resolved_descriptor_prefers_the_explicit_one() {
    let explicit = Redirection {
        fd: Some(5),
        operator: RedirectOperator::Overwrite,
        target: RedirectTarget::File("f".to_string()),
    };
    assert_eq!(explicit.resolved_descriptor(), 5);
    let implied = Redirection {
        fd: None,
        operator: RedirectOperator::Append,
        target: RedirectTarget::File("f".to_string()),
    };
    assert_eq!(implied.resolved_descriptor(), 1);
    let implied_in = Redirection {
        fd: None,
        operator: RedirectOperator::Input,
        target: RedirectTarget::File("f".to_string()),
    };
    assert_eq!(implied_in.resolved_descriptor(), 0);
}

#[test]
fn open_modes_follow_the_operator() {
    assert_eq!(open_mode(RedirectOperator::Overwrite), Some(OpenMode::TruncateWrite));
    assert_eq!(open_mode(RedirectOperator::Append), Some(OpenMode::AppendWrite));
    assert_eq!(open_mode(RedirectOperator::Input), Some(OpenMode::ReadOnly));
    assert_eq!(open_mode(RedirectOperator::HereDoc), None);
    assert_eq!(open_mode(RedirectOperator::DuplicateIn), None);
    assert_eq!(open_mode(RedirectOperator::DuplicateOut), None);
}

#[test]
fn echo_text_joins_with_single_spaces() {
    assert_eq!(echo_text(&strings(&["a", "b c", "d"])), "a b c d");
    assert_eq!(echo_text(&strings(&["hello"])), "hello");
    assert_eq!(echo_text(&strings(&[])), "");
}

#[test]
fn cd_target_defaults_to_home() {
    assert_eq!(cd_target(&strings(&[])), "~");
    assert_eq!(cd_target(&strings(&["/tmp", "ignored"])), "/tmp");
}

#[test]
fn builtins_are_recognized_by_name() {
    for name in ["cd", "echo", "exit", "type"] {
        let c = Command::Simple {
            executable: name.to_string(),
            args: vec![],
            redirects: vec![],
        };
        assert!(c.is_builtin());
    }
    let ls = Command::Simple {
        executable: "ls".to_string(),
        args: vec![],
        redirects: vec![],
    };
    assert!(!ls.is_builtin());
    let chain = Command::Binary {
        left: Box::new(Command::Simple {
            executable: "cd".to_string(),
            args: vec![],
            redirects: vec![],
        }),
        right: Box::new(Command::Simple {
            executable: "echo".to_string(),
            args: vec![],
            redirects: vec![],
        }),
        operator: Operator::Semicolon,
    };
    assert!(!chain.is_builtin());
}

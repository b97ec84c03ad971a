//! The command model: the tree that the parser builds and the execution
//! engine walks. A command is either a simple process invocation, a binary
//! combination of two commands, or a parenthesized group.

use vstd::prelude::*;

verus! {

/// The binary operators that combine two commands.
#[derive(Debug, Clone, Copy, PartialEq, Eq, Structural)]
pub enum Operator {
    /// `;` — run both, return the right status.
    Semicolon,
    /// `&` — run the left in the background, return the right status.
    Background,
    /// `&&` — run the right only when the left succeeded.
    And,
    /// `||` — run the right only when the left failed.
    Or,
    /// `|` — connect the left's output to the right's input.
    Pipe,
}

/// The redirection operators the grammar knows.
#[derive(Debug, Clone, Copy, PartialEq, Eq, Structural)]
pub enum RedirectOperator {
    /// `>` — truncate or create, write.
    Overwrite,
    /// `>>` — append or create, write.
    Append,
    /// `<` — read.
    Input,
    /// `<<` — here-document.
    HereDoc,
    /// `<&` — duplicate a descriptor for input.
    DuplicateIn,
    /// `>&` — duplicate a descriptor for output.
    DuplicateOut,
}

/// What a redirection points at.
#[derive(Debug, Clone, PartialEq)]
pub enum RedirectTarget {
    /// A path, e.g. `> file.txt`.
    File(String),
    /// Another descriptor, e.g. the `1` of `2>&1`.
    FileDescriptor(u32),
}

/// One redirection: an optional explicit descriptor, the operator, and the
/// target. When `fd` is absent the applying code derives the default
/// descriptor from the operator: 0 for input-like, 1 for output-like.
#[derive(Debug, Clone, PartialEq)]
pub struct Redirection {
    pub fd: Option<u32>,
    pub operator: RedirectOperator,
    pub target: RedirectTarget,
}

/// A parsed command tree.
#[derive(Debug, PartialEq)]
pub enum Command {
    /// A leaf process invocation. `executable` is never empty in a parsed
    /// tree: an empty word list is a parse error.
    Simple { executable: String, args: Vec<String>, redirects: Vec<Redirection> },
    /// Two commands combined by an operator.
    Binary { left: Box<Command>, right: Box<Command>, operator: Operator },
    /// A parenthesized command, opaque to the surrounding operators.
    Group { group: Box<Command> },
}

/// Mathematical model of a `RedirectTarget`.
pub enum RedirectTargetModel {
    File(Seq<char>),
    FileDescriptor(u32),
}

/// Mathematical model of a `Redirection`.
pub struct RedirectionModel {
    pub fd: Option<u32>,
    pub operator: RedirectOperator,
    pub target: RedirectTargetModel,
}

/// Mathematical model of a `Command`.
pub enum CommandModel {
    Simple { executable: Seq<char>, args: Seq<Seq<char>>, redirects: Seq<RedirectionModel> },
    Binary { left: Box<CommandModel>, right: Box<CommandModel>, operator: Operator },
    Group { group: Box<CommandModel> },
}

impl View for RedirectTarget {
    type V = RedirectTargetModel;

    open spec fn view(&self) -> RedirectTargetModel {
        match self {
            RedirectTarget::File(path) => RedirectTargetModel::File(path@),
            RedirectTarget::FileDescriptor(n) => RedirectTargetModel::FileDescriptor(*n),
        }
    }
}

impl DeepView for RedirectTarget {
    type V = RedirectTargetModel;

    open spec fn deep_view(&self) -> RedirectTargetModel {
        self.view()
    }
}

impl View for Redirection {
    type V = RedirectionModel;

    open spec fn view(&self) -> RedirectionModel {
        RedirectionModel { fd: self.fd, operator: self.operator, target: self.target@ }
    }
}

impl DeepView for Redirection {
    type V = RedirectionModel;

    open spec fn deep_view(&self) -> RedirectionModel {
        self.view()
    }
}

/// The model of a command tree, defined by recursion over the tree.
pub open spec fn command_model(c: &Command) -> CommandModel
    decreases c,
{
    match c {
        Command::Simple { executable, args, redirects } => CommandModel::Simple {
            executable: executable@,
            args: args.deep_view(),
            redirects: redirects.deep_view(),
        },
        Command::Binary { left, right, operator } => CommandModel::Binary {
            left: Box::new(command_model(left)),
            right: Box::new(command_model(right)),
            operator: *operator,
        },
        Command::Group { group } => CommandModel::Group { group: Box::new(command_model(group)) },
    }
}

impl View for Command {
    type V = CommandModel;

    open spec fn view(&self) -> CommandModel {
        command_model(self)
    }
}

impl DeepView for Command {
    type V = CommandModel;

    open spec fn deep_view(&self) -> CommandModel {
        self.view()
    }
}

/// The names that the engine runs inside its own process.
pub open spec fn is_builtin_name(name: Seq<char>) -> bool {
    name == "cd"@ || name == "echo"@ || name == "exit"@ || name == "type"@
}

/// Whether a command is a simple invocation of a builtin.
pub open spec fn spec_is_builtin(c: CommandModel) -> bool {
    match c {
        CommandModel::Simple { executable, .. } => is_builtin_name(executable),
        _ => false,
    }
}

impl Command {
    /// True exactly when this is a simple command whose executable names a
    /// builtin (`cd`, `echo`, `exit`, `type`).
    pub fn is_builtin(&self) -> (r: bool)
        ensures
            r == spec_is_builtin(self@),
    {
        match self {
            Command::Simple { executable, .. } => {
                *executable == "cd".to_owned() || *executable == "echo".to_owned()
                    || *executable == "exit".to_owned() || *executable == "type".to_owned()
            },
            _ => false,
        }
    }
}

} // verus!

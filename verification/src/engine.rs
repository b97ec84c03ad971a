//! The decisions of the execution engine, separated from the process work
//! that realizes them. The engine walks a `Command` tree forking, piping and
//! redirecting; every choice it makes along the way — which descriptor a
//! redirection applies to, how a file target is opened, whether the right
//! side of a binary operator runs and which status the chain reports — is a
//! pure function of plain values, stated and verified here.

use vstd::prelude::*;

use crate::command::{Operator, RedirectOperator, Redirection, RedirectTargetModel, RedirectionModel};

verus! {

/// The default descriptor of a redirection operator when no explicit one is
/// given: 0 for the input-like operators, 1 for the output-like ones.
pub open spec fn spec_default_descriptor(op: RedirectOperator) -> u32 {
    match op {
        RedirectOperator::Input | RedirectOperator::HereDoc | RedirectOperator::DuplicateIn => 0u32,
        RedirectOperator::Overwrite | RedirectOperator::Append | RedirectOperator::DuplicateOut => 1u32,
    }
}

/// The descriptor a redirection applies to: the explicit one when present,
/// else the operator's default.
pub open spec fn spec_resolved_descriptor(r: RedirectionModel) -> u32 {
    match r.fd {
        Some(n) => n,
        None => spec_default_descriptor(r.operator),
    }
}

impl Redirection {
    /// The descriptor this redirection applies to.
    pub fn resolved_descriptor(&self) -> (fd: u32)
        ensures
            fd == spec_resolved_descriptor(self@),
    {
        match self.fd {
            Some(n) => n,
            None => default_descriptor(self.operator),
        }
    }
}

/// The default descriptor of a redirection operator: 0 for input-like
/// operators, 1 for output-like ones.
pub fn default_descriptor(op: RedirectOperator) -> (fd: u32)
    ensures
        fd == spec_default_descriptor(op),
{
    match op {
        RedirectOperator::Input | RedirectOperator::HereDoc | RedirectOperator::DuplicateIn => 0,
        RedirectOperator::Overwrite | RedirectOperator::Append | RedirectOperator::DuplicateOut => 1,
    }
}

/// How a redirection opens a file target.
#[derive(Debug, Clone, Copy, PartialEq, Eq, Structural)]
pub enum OpenMode {
    /// Read only (`<`).
    ReadOnly,
    /// Write only, truncate or create (`>`).
    TruncateWrite,
    /// Write only, append or create (`>>`).
    AppendWrite,
}

/// The open mode of each operator on a file target. The here-document and
/// descriptor-duplicating operators do not open files: on a file target they
/// are unsupported and the engine reports an error.
pub open spec fn spec_open_mode(op: RedirectOperator) -> Option<OpenMode> {
    match op {
        RedirectOperator::Overwrite => Some(OpenMode::TruncateWrite),
        RedirectOperator::Append => Some(OpenMode::AppendWrite),
        RedirectOperator::Input => Some(OpenMode::ReadOnly),
        RedirectOperator::HereDoc | RedirectOperator::DuplicateIn | RedirectOperator::DuplicateOut => None,
    }
}

/// How the operator opens a file target; `None` for the operators that do
/// not take a file target.
pub fn open_mode(op: RedirectOperator) -> (r: Option<OpenMode>)
    ensures
        r == spec_open_mode(op),
{
    match op {
        RedirectOperator::Overwrite => Some(OpenMode::TruncateWrite),
        RedirectOperator::Append => Some(OpenMode::AppendWrite),
        RedirectOperator::Input => Some(OpenMode::ReadOnly),
        RedirectOperator::HereDoc | RedirectOperator::DuplicateIn | RedirectOperator::DuplicateOut => None,
    }
}

/// Whether the right side of `left op right` runs, given the left side's
/// exit status. `&&` runs it only after success, `||` only after failure;
/// `;` and `&` always run it, and `|` launches both sides regardless.
pub open spec fn spec_runs_right(op: Operator, left_status: i32) -> bool {
    match op {
        Operator::And => left_status == 0,
        Operator::Or => left_status != 0,
        Operator::Semicolon | Operator::Background | Operator::Pipe => true,
    }
}

/// The status of `left op right` once both sides' statuses are known. When
/// the right side was short-circuited away, the chain's status is the left
/// one and the `right_status` argument is irrelevant.
pub open spec fn spec_chain_status(op: Operator, left_status: i32, right_status: i32) -> i32 {
    match op {
        Operator::And => if left_status == 0 { right_status } else { left_status },
        Operator::Or => if left_status == 0 { left_status } else { right_status },
        Operator::Semicolon | Operator::Background | Operator::Pipe => right_status,
    }
}

/// Whether the right side of a binary operator runs, given the left status.
pub fn runs_right(op: Operator, left_status: i32) -> (r: bool)
    ensures
        r == spec_runs_right(op, left_status),
{
    match op {
        Operator::And => left_status == 0,
        Operator::Or => left_status != 0,
        Operator::Semicolon | Operator::Background | Operator::Pipe => true,
    }
}

/// The status a binary chain reports.
pub fn chain_status(op: Operator, left_status: i32, right_status: i32) -> (r: i32)
    ensures
        r == spec_chain_status(op, left_status, right_status),
{
    match op {
        Operator::And => if left_status == 0 { right_status } else { left_status },
        Operator::Or => if left_status == 0 { left_status } else { right_status },
        Operator::Semicolon | Operator::Background | Operator::Pipe => right_status,
    }
}

/// Law of `a && b`: when `a` exits 0 the right side runs and its status is
/// the chain's status; when `a` exits non-zero the right side does not run
/// and `a`'s status is the chain's status.
pub proof fn lemma_and_chain(left_status: i32, right_status: i32)
    ensures
        left_status == 0 ==> spec_runs_right(Operator::And, left_status)
            && spec_chain_status(Operator::And, left_status, right_status) == right_status,
        left_status != 0 ==> !spec_runs_right(Operator::And, left_status)
            && spec_chain_status(Operator::And, left_status, right_status) == left_status,
{
}

/// Law of `a || b`: when `a` exits 0 the right side does not run and 0 is
/// the chain's status; when `a` exits non-zero the right side runs and its
/// status is the chain's status.
pub proof fn lemma_or_chain(left_status: i32, right_status: i32)
    ensures
        left_status == 0 ==> !spec_runs_right(Operator::Or, left_status)
            && spec_chain_status(Operator::Or, left_status, right_status) == left_status,
        left_status != 0 ==> spec_runs_right(Operator::Or, left_status)
            && spec_chain_status(Operator::Or, left_status, right_status) == right_status,
{
}

/// Law of `a ; b`: the right side always runs and its status is the chain's
/// status, whatever the left side reported.
pub proof fn lemma_semicolon_chain(left_status: i32, right_status: i32)
    ensures
        spec_runs_right(Operator::Semicolon, left_status),
        spec_chain_status(Operator::Semicolon, left_status, right_status) == right_status,
{
}

/// The descriptor table a redirection list builds: applying the redirections
/// in listed order, each points its resolved descriptor at its target,
/// overriding whatever an earlier redirection set for that descriptor.
pub open spec fn spec_applied_targets(rs: Seq<RedirectionModel>) -> Map<u32, RedirectTargetModel>
    decreases rs.len(),
{
    if rs.len() == 0 {
        Map::empty()
    } else {
        spec_applied_targets(rs.drop_last()).insert(
            spec_resolved_descriptor(rs.last()),
            rs.last().target,
        )
    }
}

/// Law of redirection overriding: the last redirection in the list that
/// touches a descriptor decides where that descriptor points. In particular
/// `> a.txt > b.txt` leaves descriptor 1 pointing at `b.txt`.
pub proof fn lemma_last_redirect_wins(rs: Seq<RedirectionModel>, i: int)
    requires
        0 <= i < rs.len(),
        forall|j: int| i < j < rs.len() ==> spec_resolved_descriptor(#[trigger] rs[j])
            != spec_resolved_descriptor(rs[i]),
    ensures
        spec_applied_targets(rs).contains_key(spec_resolved_descriptor(rs[i])),
        spec_applied_targets(rs)[spec_resolved_descriptor(rs[i])] == rs[i].target,
    decreases rs.len(),
{
    if i == rs.len() - 1 {
    } else {
        lemma_last_redirect_wins(rs.drop_last(), i);
        assert(rs.drop_last()[i] == rs[i]);
        assert(rs[rs.len() - 1] == rs.last());
    }
}

/// What `echo` prints before the final newline: its arguments joined by
/// single spaces.
pub open spec fn spec_joined(args: Seq<Seq<char>>) -> Seq<char>
    decreases args.len(),
{
    if args.len() == 0 {
        Seq::empty()
    } else if args.len() == 1 {
        args[0]
    } else {
        spec_joined(args.drop_last()) + seq![' '] + args.last()
    }
}

/// The text `echo` writes, before the newline: the arguments joined by
/// single spaces.
pub fn echo_text(args: &Vec<String>) -> (r: String)
    ensures
        r@ == spec_joined(args.deep_view()),
{
    let ghost model = args.deep_view();
    let mut out = String::new();
    let mut i: usize = 0;
    while i < args.len()
        invariant
            i <= args.len(),
            model == args.deep_view(),
            model.len() == args.len(),
            out@ == spec_joined(model.take(i as int)),
        decreases args.len() - i,
    {
        if i > 0 {
            out.append(" ");
            proof {
                reveal_strlit(" ");
                assert(" "@ =~= seq![' ']);
            }
        }
        out.append(args[i].as_str());
        proof {
            assert(model.take(i + 1 as int).drop_last() =~= model.take(i as int));
            assert(model.take(i + 1 as int).last() == model[i as int]);
            if i > 0 {
                assert(out@ =~= spec_joined(model.take(i + 1 as int)));
            } else {
                assert(model.take(1int).len() == 1);
                assert(out@ =~= spec_joined(model.take(1int)));
            }
        }
        i = i + 1;
    }
    proof {
        assert(model.take(args.len() as int) =~= model);
    }
    out
}

/// Where `cd` goes: its first argument, or the home marker `~` when it got
/// none.
pub fn cd_target(args: &Vec<String>) -> (t: String)
    ensures
        args.len() > 0 ==> t@ == args.deep_view()[0],
        args.len() == 0 ==> t@ == "~"@,
{
    if args.len() > 0 {
        args[0].clone()
    } else {
        "~".to_owned()
    }
}

} // verus!

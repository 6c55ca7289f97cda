//! Commands planned for `ip` and `tc`, each with what a failed run means for
//! the operation that planned it.

use vstd::prelude::*;
use vstd::string::*;

use crate::network_sim::qdisc::{lit, push_arg, string_views};
use crate::text::{seq_contains, str_contains};

verus! {

/// What a failed run of a planned command means.
#[derive(Clone, Copy, Debug, PartialEq, Eq, Structural)]
pub enum OnFailure {
    /// Best effort: the operation goes on.
    Ignore,
    /// The operation fails.
    Fail,
    /// The operation goes on when the error output says that the object
    /// already exists, and fails otherwise.
    TolerateExists,
}

/// A command to run: the program, its arguments, and what a failure means.
#[derive(Debug)]
pub struct PlannedCommand {
    pub program: String,
    pub args: Vec<String>,
    pub on_failure: OnFailure,
}

/// The content of a `PlannedCommand`.
pub struct CommandView {
    pub program: Seq<char>,
    pub args: Seq<Seq<char>>,
    pub on_failure: OnFailure,
}

impl View for PlannedCommand {
    type V = CommandView;

    open spec fn view(&self) -> CommandView {
        CommandView {
            program: self.program@,
            args: string_views(self.args@),
            on_failure: self.on_failure,
        }
    }
}

/// The contents of a sequence of planned commands.
pub open spec fn command_views(v: Seq<PlannedCommand>) -> Seq<CommandView> {
    v.map_values(|c: PlannedCommand| c@)
}

/// An `ip` command with the given arguments.
pub open spec fn ip_cmd(args: Seq<Seq<char>>, on_failure: OnFailure) -> CommandView {
    CommandView { program: "ip"@, args, on_failure }
}

/// A `tc` command with the given arguments.
pub open spec fn tc_cmd(args: Seq<Seq<char>>, on_failure: OnFailure) -> CommandView {
    CommandView { program: "tc"@, args, on_failure }
}

/// Whether the operation goes on after a failed run with error output
/// `stderr`.
pub open spec fn failure_tolerated_spec(on_failure: OnFailure, stderr: Seq<char>) -> bool {
    match on_failure {
        OnFailure::Ignore => true,
        OnFailure::Fail => false,
        OnFailure::TolerateExists => seq_contains(stderr, "File exists"@),
    }
}

/// Decides whether the operation goes on after a failed run.
pub fn failure_tolerated(on_failure: OnFailure, stderr: &str) -> (r: bool)
    ensures
        r == failure_tolerated_spec(on_failure, stderr@),
{
    match on_failure {
        OnFailure::Ignore => true,
        OnFailure::Fail => false,
        OnFailure::TolerateExists => str_contains(stderr, "File exists"),
    }
}

/// Builds an `ip` command.
pub fn ip_command(args: Vec<String>, on_failure: OnFailure) -> (c: PlannedCommand)
    ensures
        c@ == ip_cmd(string_views(args@), on_failure),
{
    PlannedCommand { program: lit("ip"), args, on_failure }
}

/// Builds a `tc` command.
pub fn tc_command(args: Vec<String>, on_failure: OnFailure) -> (c: PlannedCommand)
    ensures
        c@ == tc_cmd(string_views(args@), on_failure),
{
    PlannedCommand { program: lit("tc"), args, on_failure }
}

/// Appends a command to a plan.
pub fn push_command(plan: &mut Vec<PlannedCommand>, c: PlannedCommand)
    ensures
        command_views(final(plan)@) == command_views(old(plan)@).push(c@),
{
    let ghost before = plan@;
    plan.push(c);
    assert(command_views(plan@) =~= command_views(before).push(c@));
}

/// The characters of each word.
pub open spec fn word_views(ws: Seq<&str>) -> Seq<Seq<char>> {
    ws.map_values(|w: &str| w@)
}

/// An `ip` command with the given words as arguments.
pub fn ip_words(ws: &[&str], on_failure: OnFailure) -> (c: PlannedCommand)
    ensures
        c@ == ip_cmd(word_views(ws@), on_failure),
{
    ip_command(words(ws), on_failure)
}

/// A `tc` command with the given words as arguments.
pub fn tc_words(ws: &[&str], on_failure: OnFailure) -> (c: PlannedCommand)
    ensures
        c@ == tc_cmd(word_views(ws@), on_failure),
{
    tc_command(words(ws), on_failure)
}

/// Argument list of the given words.
pub fn words(ws: &[&str]) -> (args: Vec<String>)
    ensures
        string_views(args@) == ws@.map_values(|w: &str| w@),
{
    let mut args: Vec<String> = Vec::new();
    let mut i: usize = 0;
    while i < ws.len()
        invariant
            i <= ws@.len(),
            string_views(args@) == ws@.take(i as int).map_values(|w: &str| w@),
        decreases ws.len() - i,
    {
        push_arg(&mut args, lit(ws[i]));
        assert(ws@.take(i as int + 1) =~= ws@.take(i as int).push(ws@[i as int]));
        assert(ws@.take(i as int + 1).map_values(|w: &str| w@) =~= ws@.take(i as int).map_values(
            |w: &str| w@,
        ).push(ws@[i as int]@));
        i = i + 1;
    }
    assert(ws@.take(ws@.len() as int) =~= ws@);
    args
}

} // verus!

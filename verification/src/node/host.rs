//! What the node asks of its host: commands and files, as values.

use vstd::prelude::*;
use vstd::string::StringExecFns;

verus! {

/// The host's system.
#[derive(Clone, Copy, Debug, PartialEq, Eq, Structural)]
pub enum Os {
    Linux,
    Macos,
    Windows,
    Other,
}

/// A command.
#[derive(Debug)]
pub struct Cmd {
    pub program: String,
    pub args: Vec<String>,
}

/// A command as a value.
pub struct Command {
    pub program: Seq<char>,
    pub args: Seq<Seq<char>>,
}

impl Cmd {
    /// The command as a value.
    pub open spec fn view(&self) -> Command {
        Command { program: self.program@, args: crate::text::texts(self.args@) }
    }
}

/// Some texts as values.
pub open spec fn strs(v: Seq<&str>) -> Seq<Seq<char>> {
    v.map_values(|s: &str| s@)
}

/// A command with its arguments.
pub fn cmd(program: &str, args: &[&str]) -> (c: Cmd)
    ensures
        c@ == (Command { program: program@, args: strs(args@) }),
{
    let mut v: Vec<String> = Vec::new();
    let mut i: usize = 0;
    assert(crate::text::texts(v@) =~= strs(args@.take(0)));
    while i < args.len()
        invariant
            i <= args@.len(),
            crate::text::texts(v@) == strs(args@.take(i as int)),
        decreases args@.len() - i,
    {
        let t = String::from_str(args[i]);
        proof {
            crate::text::texts_push(v@, t);
            assert(strs(args@.take(i + 1)) =~= strs(args@.take(i as int)).push(args@[i as int]@));
        }
        v.push(t);
        i += 1;
    }
    assert(args@.take(args@.len() as int) =~= args@);
    Cmd { program: String::from_str(program), args: v }
}

/// A command whose arguments are some texts, one more and some others.
pub fn cmd_with(program: &str, front: &[&str], middle: &str, back: &[&str]) -> (c: Cmd)
    ensures
        c@ == (Command { program: program@, args: strs(front@).push(middle@) + strs(back@) }),
{
    let mut c = cmd(program, front);
    let mut rest = cmd(program, back).args;
    let ghost tail = rest@;
    let m = String::from_str(middle);
    proof {
        crate::text::texts_push(c.args@, m);
    }
    c.args.push(m);
    let ghost head = c.args@;
    c.args.append(&mut rest);
    assert(crate::text::texts(c.args@) =~= crate::text::texts(head) + crate::text::texts(tail));
    c
}

/// A step that the host takes. What comes of a command is ignored where nothing else is said.
#[derive(Debug)]
pub enum Step {
    /// Runs a command.
    Run(Cmd),
    /// Runs a command with a text as its input.
    Feed(Cmd, String),
    /// Writes a file.
    Write(String, String),
    /// Writes a file, unless it exists.
    WriteNew(String, String),
    /// Removes a file.
    Remove(String),
    /// Runs the second command if the first one fails.
    Ensure(Cmd, Cmd),
    /// Runs a command until it fails, at most so many times.
    Drain(Cmd, u32),
    /// Runs the last command unless a line that the first one prints has all of the texts.
    UnlessListed(Cmd, Vec<String>, Cmd),
    /// Deletes the rules among those that the command prints that block what leaves by the first
    /// interface and does not come from the second.
    DeleteListed(Cmd, String, String),
    /// Runs a command, and the second one if it succeeds; else writes a file.
    RunOrWrite(Cmd, Cmd, String, String),
}

/// A step as a value.
pub enum Act {
    Run(Command),
    Feed(Command, Seq<char>),
    Write(Seq<char>, Seq<char>),
    WriteNew(Seq<char>, Seq<char>),
    Remove(Seq<char>),
    Ensure(Command, Command),
    Drain(Command, u32),
    UnlessListed(Command, Seq<Seq<char>>, Command),
    DeleteListed(Command, Seq<char>, Seq<char>),
    RunOrWrite(Command, Command, Seq<char>, Seq<char>),
}

impl Step {
    /// The step as a value.
    pub open spec fn view(&self) -> Act {
        match *self {
            Step::Run(c) => Act::Run(c@),
            Step::Feed(c, s) => Act::Feed(c@, s@),
            Step::Write(p, s) => Act::Write(p@, s@),
            Step::WriteNew(p, s) => Act::WriteNew(p@, s@),
            Step::Remove(p) => Act::Remove(p@),
            Step::Ensure(c, d) => Act::Ensure(c@, d@),
            Step::Drain(c, n) => Act::Drain(c@, n),
            Step::UnlessListed(c, v, d) => Act::UnlessListed(c@, crate::text::texts(v@), d@),
            Step::DeleteListed(c, p, t) => Act::DeleteListed(c@, p@, t@),
            Step::RunOrWrite(c, d, p, s) => Act::RunOrWrite(c@, d@, p@, s@),
        }
    }
}

/// Some steps as values.
pub open spec fn acts(v: Seq<Step>) -> Seq<Act> {
    v.map_values(|s: Step| s@)
}

/// Adds a step.
pub fn push_step(out: &mut Vec<Step>, s: Step)
    ensures
        acts(final(out)@) == acts(old(out)@).push(s@),
{
    let ghost before = out@;
    out.push(s);
    assert(acts(out@) =~= acts(before).push(s@));
}

/// Adds a command.
pub fn push_run(out: &mut Vec<Step>, program: &str, args: &[&str])
    ensures
        acts(final(out)@) == acts(old(out)@).push(
            Act::Run(Command { program: program@, args: strs(args@) }),
        ),
{
    push_step(out, Step::Run(cmd(program, args)));
}

/// Adds further steps.
pub fn append_steps(out: &mut Vec<Step>, more: Vec<Step>)
    ensures
        acts(final(out)@) == acts(old(out)@) + acts(more@),
{
    let mut more = more;
    let ghost tail = more@;
    out.append(&mut more);
    assert(acts(out@) =~= acts(old(out)@) + acts(tail));
}

/// A command as a value.
pub open spec fn run(program: Seq<char>, args: Seq<Seq<char>>) -> Act {
    Act::Run(Command { program, args })
}

/// No steps.
pub fn no_steps() -> (v: Vec<Step>)
    ensures
        acts(v@) == Seq::<Act>::empty(),
{
    let v: Vec<Step> = Vec::new();
    assert(acts(v@) =~= seq![]);
    v
}

/// One text after the other.
pub fn join2(a: &str, b: &str) -> (s: String)
    ensures
        s@ == a@ + b@,
{
    let mut s = String::from_str(a);
    s.append(b);
    s
}

} // verus!

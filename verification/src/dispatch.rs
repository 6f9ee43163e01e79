//! Per-line command classification: the first token picks a builtin,
//! an external program, or nothing. The caller performs the chosen
//! action (printing, changing directory, spawning) and loops.

use vstd::prelude::*;
use vstd::string::*;
use crate::builtins::is_builtin_name;
use crate::text::join_spaces;
use crate::text::join_with_spaces;
use crate::text::str_eq;
use crate::tokenizer::parse_args;
use crate::tokenizer::tokenize_spec;

verus! {

/// What one input line asks the shell to do. `Echo` and `Cd` carry
/// their already-joined argument text; `External` leaves the token
/// sequence to the caller, which resolves the first token on the
/// search path.
pub enum Command {
    /// The line held no tokens: print a fresh prompt.
    Empty,
    /// End the read-eval loop.
    Exit,
    /// Print the carried line.
    Echo { line: String },
    /// Report what the carried name resolves to.
    TypeQuery { name: String },
    /// Print the working directory.
    Pwd,
    /// Change the working directory to the carried target.
    Cd { target: String },
    /// Resolve the first token on the search path and run it.
    External,
}

/// How a token sequence maps to a command: the first token selects the
/// variant, builtin names always over the search path, and the
/// builtins receive the remaining, already-tokenized arguments.
pub open spec fn classifies(ts: Seq<Seq<char>>, c: Command) -> bool {
    if ts.len() == 0 {
        c is Empty
    } else if ts[0] == "exit"@ {
        c is Exit
    } else if ts[0] == "echo"@ {
        c matches Command::Echo { line } && line@ == join_spaces(ts.skip(1))
    } else if ts[0] == "type"@ {
        c matches Command::TypeQuery { name } && name@ == if ts.len() >= 2 {
            ts[1]
        } else {
            Seq::<char>::empty()
        }
    } else if ts[0] == "pwd"@ {
        c is Pwd
    } else if ts[0] == "cd"@ {
        c matches Command::Cd { target } && target@ == join_spaces(ts.skip(1))
    } else {
        c is External
    }
}

/// Maps the tokens of one line to the command they ask for.
pub fn classify(tokens: &Vec<String>) -> (c: Command)
    ensures
        classifies(tokens.deep_view(), c),
{
    if tokens.len() == 0 {
        return Command::Empty;
    }
    let name = tokens[0].as_str();
    proof {
        let ts = tokens.deep_view();
        assert(ts[0] == tokens@[0]@);
        if tokens@.len() >= 2 {
            assert(ts[1] == tokens@[1]@);
        }
    }
    if str_eq(name, "exit") {
        Command::Exit
    } else if str_eq(name, "echo") {
        Command::Echo { line: join_with_spaces(tokens, 1) }
    } else if str_eq(name, "type") {
        let arg = if tokens.len() >= 2 {
            String::from_str(tokens[1].as_str())
        } else {
            String::new()
        };
        Command::TypeQuery { name: arg }
    } else if str_eq(name, "pwd") {
        Command::Pwd
    } else if str_eq(name, "cd") {
        Command::Cd { target: join_with_spaces(tokens, 1) }
    } else {
        Command::External
    }
}

/// Tokenizes one trimmed input line and classifies it; the returned
/// tokens feed the resolver and the spawned program when the command
/// is external.
pub fn dispatch_line(line: &str) -> (r: (Command, Vec<String>))
    ensures
        r.1.deep_view() == tokenize_spec(line@),
        classifies(tokenize_spec(line@), r.0),
{
    let tokens = parse_args(line);
    let c = classify(&tokens);
    (c, tokens)
}

/// Builtin precedence: a line whose command name is a builtin never
/// dispatches to the search path, whatever executables the path holds.
pub proof fn lemma_builtin_precedence(ts: Seq<Seq<char>>, c: Command)
    requires
        ts.len() > 0,
        is_builtin_name(ts[0]),
        classifies(ts, c),
    ensures
        !(c is External),
{
}

/// An `exit` line always ends the loop: it classifies to `Exit`, which
/// carries nothing and performs no further read.
pub proof fn lemma_exit_terminates(ts: Seq<Seq<char>>, c: Command)
    requires
        ts.len() > 0,
        ts[0] == "exit"@,
        classifies(ts, c),
    ensures
        c is Exit,
{
}

} // verus!

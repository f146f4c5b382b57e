//! The debugger's command words and their arguments.
use vstd::prelude::*;
use vstd::string::StringExecFns;

verus! {

/// One command of the debugger's prompt.
pub enum DebuggerCommand {
    Quit,
    Run(Vec<String>),
    Cont,
    Backtrace,
    Break(String),
}

pub open spec fn names_quit(w: Seq<char>) -> bool {
    w == "q"@ || w == "quit"@
}

pub open spec fn names_run(w: Seq<char>) -> bool {
    w == "r"@ || w == "run"@
}

pub open spec fn names_cont(w: Seq<char>) -> bool {
    w == "c"@ || w == "cont"@ || w == "continue"@
}

pub open spec fn names_backtrace(w: Seq<char>) -> bool {
    w == "bt"@ || w == "back"@ || w == "backtrace"@
}

pub open spec fn names_break(w: Seq<char>) -> bool {
    w == "b"@ || w == "brk"@ || w == "break"@
}

/// The characters of each token.
pub open spec fn words_of(tokens: Seq<&str>) -> Seq<Seq<char>> {
    tokens.map_values(|t: &str| t@)
}

/// The words joined by single spaces.
pub open spec fn join_words(ws: Seq<Seq<char>>) -> Seq<char>
    decreases ws.len(),
{
    if ws.len() == 0 {
        Seq::empty()
    } else if ws.len() == 1 {
        ws[0]
    } else {
        join_words(ws.drop_last()) + seq![' '] + ws.last()
    }
}

fn is_word(t: &str, w: &str) -> (r: bool)
    ensures
        r == (t@ == w@),
{
    let a = t.to_owned();
    let b = w.to_owned();
    a == b
}

impl DebuggerCommand {
    /// Reads a command from the tokens of one input line: the first token
    /// names the command, the rest are its arguments (for `run`, one
    /// argument each; for `break`, joined back with single spaces).
    pub fn from_tokens(tokens: &[&str]) -> (r: Option<DebuggerCommand>)
        requires
            tokens@.len() > 0,
        ensures
            names_quit(tokens@[0]@) <==> r matches Some(DebuggerCommand::Quit),
            names_run(tokens@[0]@) <==> r matches Some(DebuggerCommand::Run(_)),
            names_cont(tokens@[0]@) <==> r matches Some(DebuggerCommand::Cont),
            names_backtrace(tokens@[0]@) <==> r matches Some(DebuggerCommand::Backtrace),
            names_break(tokens@[0]@) <==> r matches Some(DebuggerCommand::Break(_)),
            r matches Some(DebuggerCommand::Run(args)) ==> args@.map_values(|s: String| s@)
                == words_of(tokens@.skip(1)),
            r matches Some(DebuggerCommand::Break(arg)) ==> arg@ == join_words(
                words_of(tokens@.skip(1)),
            ),
    {
        proof {
            reveal_strlit("q");
            assert("q"@.len() == 1 && "q"@[0] == 'q');
            reveal_strlit("quit");
            assert("quit"@.len() == 4 && "quit"@[0] == 'q');
            reveal_strlit("r");
            assert("r"@.len() == 1 && "r"@[0] == 'r');
            reveal_strlit("run");
            assert("run"@.len() == 3 && "run"@[0] == 'r');
            reveal_strlit("c");
            assert("c"@.len() == 1 && "c"@[0] == 'c');
            reveal_strlit("cont");
            assert("cont"@.len() == 4 && "cont"@[0] == 'c');
            reveal_strlit("continue");
            assert("continue"@.len() == 8 && "continue"@[0] == 'c');
            reveal_strlit("bt");
            assert("bt"@.len() == 2 && "bt"@[0] == 'b');
            reveal_strlit("back");
            assert("back"@.len() == 4 && "back"@[0] == 'b');
            reveal_strlit("backtrace");
            assert("backtrace"@.len() == 9 && "backtrace"@[0] == 'b');
            reveal_strlit("b");
            assert("b"@.len() == 1 && "b"@[0] == 'b');
            reveal_strlit("brk");
            assert("brk"@.len() == 3 && "brk"@[0] == 'b');
            reveal_strlit("break");
            assert("break"@.len() == 5 && "break"@[0] == 'b');
        }
        let w = tokens[0];
        if is_word(w, "q") || is_word(w, "quit") {
            Some(DebuggerCommand::Quit)
        } else if is_word(w, "r") || is_word(w, "run") {
            Some(DebuggerCommand::Run(rest_words(tokens)))
        } else if is_word(w, "c") || is_word(w, "cont") || is_word(w, "continue") {
            Some(DebuggerCommand::Cont)
        } else if is_word(w, "bt") || is_word(w, "back") || is_word(w, "backtrace") {
            Some(DebuggerCommand::Backtrace)
        } else if is_word(w, "b") || is_word(w, "brk") || is_word(w, "break") {
            Some(DebuggerCommand::Break(rest_joined(tokens)))
        } else {
            None
        }
    }

    /// Whether this is a `break` command.
    pub fn is_break(&self) -> (r: bool)
        ensures
            r == (self is Break),
    {
        match self {
            DebuggerCommand::Break(_) => true,
            _ => false,
        }
    }
}

/// The tokens after the first, each as an owned string.
fn rest_words(tokens: &[&str]) -> (r: Vec<String>)
    requires
        tokens@.len() > 0,
    ensures
        r@.map_values(|s: String| s@) == words_of(tokens@.skip(1)),
{
    let mut out: Vec<String> = Vec::new();
    let mut i: usize = 1;
    while i < tokens.len()
        invariant
            1 <= i <= tokens@.len(),
            out@.map_values(|s: String| s@) == words_of(tokens@.subrange(1, i as int)),
        decreases tokens@.len() - i,
    {
        out.push(tokens[i].to_owned());
        i = i + 1;
        assert(words_of(tokens@.subrange(1, i as int)) =~= words_of(
            tokens@.subrange(1, i - 1 as int),
        ).push(tokens@[i - 1]@));
        assert(out@.map_values(|s: String| s@) =~= words_of(tokens@.subrange(1, i - 1 as int)).push(
            tokens@[i - 1]@,
        ));
    }
    assert(tokens@.subrange(1, tokens@.len() as int) =~= tokens@.skip(1));
    out
}

/// The tokens after the first, joined by single spaces.
fn rest_joined(tokens: &[&str]) -> (r: String)
    requires
        tokens@.len() > 0,
    ensures
        r@ == join_words(words_of(tokens@.skip(1))),
{
    let mut out = String::new();
    let mut i: usize = 1;
    while i < tokens.len()
        invariant
            1 <= i <= tokens@.len(),
            out@ == join_words(words_of(tokens@.subrange(1, i as int))),
        decreases tokens@.len() - i,
    {
        let ghost before = words_of(tokens@.subrange(1, i as int));
        let ghost out_before = out@;
        proof {
            reveal_strlit(" ");
            assert(" "@ =~= seq![' ']);
        }
        if i > 1 {
            out.append(" ");
        }
        out.append(tokens[i]);
        i = i + 1;
        let ghost after = words_of(tokens@.subrange(1, i as int));
        assert(after.drop_last() =~= before);
        assert(after.last() == tokens@[i - 1]@);
        if i > 2 {
            assert(out@ =~= out_before + seq![' '] + tokens@[i - 1]@);
        } else {
            assert(before.len() == 0);
            assert(out_before =~= Seq::<char>::empty());
            assert(out@ =~= tokens@[i - 1]@);
        }
        assert(out@ =~= join_words(after));
    }
    assert(tokens@.subrange(1, tokens@.len() as int) =~= tokens@.skip(1));
    out
}

} // verus!

//! The command line: which operation the process arguments ask for.

use crate::text::views;
use vstd::prelude::*;
use vstd::string::*;

verus! {

/// An operation of the command line.
#[derive(Debug, Clone, Copy, PartialEq, Eq, Structural)]
pub enum Command {
    Init,
    List,
    Add,
    Done,
    Undo,
    Remove,
    Reset,
    Restore,
    Help,
}

/// The command that the process arguments name; the first argument is the
/// program. With no command the tasks are listed; a command that takes no
/// arguments is asked for alone, one that takes some with at least one.
pub open spec fn command_spec(argv: Seq<Seq<char>>) -> Command {
    if argv.len() <= 1 {
        Command::List
    } else if argv.len() == 2 {
        let c = argv[1];
        if c == seq!['i', 'n', 'i', 't'] {
            Command::Init
        } else if c == seq!['l', 'i', 's', 't'] {
            Command::List
        } else if c == seq!['r', 'e', 's', 'e', 't'] {
            Command::Reset
        } else if c == seq!['r', 'e', 's', 't', 'o', 'r', 'e'] {
            Command::Restore
        } else {
            Command::Help
        }
    } else {
        let c = argv[1];
        if c == seq!['a', 'd', 'd'] {
            Command::Add
        } else if c == seq!['d', 'o', 'n', 'e'] {
            Command::Done
        } else if c == seq!['u', 'n', 'd', 'o'] {
            Command::Undo
        } else if c == seq!['r', 'm'] {
            Command::Remove
        } else {
            Command::Help
        }
    }
}

fn is_word(s: &String, w: &str) -> (r: bool)
    ensures
        r == (s@ == w@),
{
    let t = String::from_str(w);
    *s == t
}

/// The command that the process arguments `argv` name.
pub fn command_of(argv: &Vec<String>) -> (r: Command)
    ensures
        r == command_spec(views(argv@)),
{
    proof {
        reveal_strlit("init");
        reveal_strlit("list");
        reveal_strlit("reset");
        reveal_strlit("restore");
        reveal_strlit("add");
        reveal_strlit("done");
        reveal_strlit("undo");
        reveal_strlit("rm");
    }
    let ghost a = views(argv@);
    if argv.len() <= 1 {
        return Command::List;
    }
    let c = &argv[1];
    assert(c@ == a[1]);
    if argv.len() == 2 {
        if is_word(c, "init") {
            assert(a[1] =~= seq!['i', 'n', 'i', 't']);
            Command::Init
        } else if is_word(c, "list") {
            assert(a[1] =~= seq!['l', 'i', 's', 't']);
            Command::List
        } else if is_word(c, "reset") {
            assert(a[1] =~= seq!['r', 'e', 's', 'e', 't']);
            Command::Reset
        } else if is_word(c, "restore") {
            assert(a[1] =~= seq!['r', 'e', 's', 't', 'o', 'r', 'e']);
            Command::Restore
        } else {
            assert(a[1] != seq!['i', 'n', 'i', 't']) by {
                if a[1] == seq!['i', 'n', 'i', 't'] {
                    assert(c@ =~= "init"@);
                }
            }
            assert(a[1] != seq!['l', 'i', 's', 't']) by {
                if a[1] == seq!['l', 'i', 's', 't'] {
                    assert(c@ =~= "list"@);
                }
            }
            assert(a[1] != seq!['r', 'e', 's', 'e', 't']) by {
                if a[1] == seq!['r', 'e', 's', 'e', 't'] {
                    assert(c@ =~= "reset"@);
                }
            }
            assert(a[1] != seq!['r', 'e', 's', 't', 'o', 'r', 'e']) by {
                if a[1] == seq!['r', 'e', 's', 't', 'o', 'r', 'e'] {
                    assert(c@ =~= "restore"@);
                }
            }
            Command::Help
        }
    } else {
        if is_word(c, "add") {
            assert(a[1] =~= seq!['a', 'd', 'd']);
            Command::Add
        } else if is_word(c, "done") {
            assert(a[1] =~= seq!['d', 'o', 'n', 'e']);
            Command::Done
        } else if is_word(c, "undo") {
            assert(a[1] =~= seq!['u', 'n', 'd', 'o']);
            Command::Undo
        } else if is_word(c, "rm") {
            assert(a[1] =~= seq!['r', 'm']);
            Command::Remove
        } else {
            assert(a[1] != seq!['a', 'd', 'd']) by {
                if a[1] == seq!['a', 'd', 'd'] {
                    assert(c@ =~= "add"@);
                }
            }
            assert(a[1] != seq!['d', 'o', 'n', 'e']) by {
                if a[1] == seq!['d', 'o', 'n', 'e'] {
                    assert(c@ =~= "done"@);
                }
            }
            assert(a[1] != seq!['u', 'n', 'd', 'o']) by {
                if a[1] == seq!['u', 'n', 'd', 'o'] {
                    assert(c@ =~= "undo"@);
                }
            }
            assert(a[1] != seq!['r', 'm']) by {
                if a[1] == seq!['r', 'm'] {
                    assert(c@ =~= "rm"@);
                }
            }
            Command::Help
        }
    }
}

} // verus!

//! The command line: from the arguments to the command that they ask for.

use vstd::prelude::*;
use vstd::string::StringExecFns;
use crate::error::{CliError, CliErrorView};

verus! {

/// The store that a command works on where the arguments name none.
pub const DEFAULT_PATH: &'static str = "./task_list";

/// What the user asks for.
#[derive(Debug)]
pub enum Command {
    /// No command was given: the usage is shown.
    Help,
    /// Add a task to the store at `path`.
    Add { path: String },
    /// List the tasks of the store at `path`.
    List { path: String },
    /// Remove the task whose identifier `id` spells.
    Remove { id: String, path: String },
    /// Log `amount` of progress on the task whose identifier `id` spells.
    Progress { id: String, amount: String, path: String },
    /// Edit the task whose identifier `id` spells.
    Edit { id: String, path: String },
}

/// A [`Command`] with its texts as character sequences.
pub enum CommandView {
    Help,
    Add { path: Seq<char> },
    List { path: Seq<char> },
    Remove { id: Seq<char>, path: Seq<char> },
    Progress { id: Seq<char>, amount: Seq<char>, path: Seq<char> },
    Edit { id: Seq<char>, path: Seq<char> },
}

impl View for Command {
    type V = CommandView;

    open spec fn view(&self) -> CommandView {
        match self {
            Command::Help => CommandView::Help,
            Command::Add { path } => CommandView::Add { path: path@ },
            Command::List { path } => CommandView::List { path: path@ },
            Command::Remove { id, path } => CommandView::Remove { id: id@, path: path@ },
            Command::Progress { id, amount, path } => CommandView::Progress {
                id: id@,
                amount: amount@,
                path: path@,
            },
            Command::Edit { id, path } => CommandView::Edit { id: id@, path: path@ },
        }
    }
}

/// The argument at `i`, or the default path where there are no more than `i`
/// arguments.
pub open spec fn path_at(args: Seq<Seq<char>>, i: int) -> Seq<char> {
    if i < args.len() {
        args[i]
    } else {
        DEFAULT_PATH@
    }
}

/// `parts` in one line, with one space between every two of them.
pub open spec fn joined(parts: Seq<Seq<char>>) -> Seq<char>
    decreases parts.len(),
{
    if parts.len() == 0 {
        Seq::empty()
    } else if parts.len() == 1 {
        parts[0]
    } else {
        joined(parts.drop_last()) + seq![' '] + parts.last()
    }
}

/// The command that the arguments ask for; the first argument is the name of
/// the program.
///
/// `add` and `list` take the path of the store as their one argument; `remove`
/// and `edit` take an identifier and then the path; `progress` takes an
/// identifier and an amount, which is all that follows the identifier, and
/// reads the path from the argument behind the first of the amount.
pub open spec fn command_of(args: Seq<Seq<char>>) -> Result<CommandView, CliErrorView> {
    if args.len() <= 1 {
        Ok(CommandView::Help)
    } else if args[1] == "add"@ {
        Ok(CommandView::Add { path: path_at(args, 2) })
    } else if args[1] == "list"@ {
        Ok(CommandView::List { path: path_at(args, 2) })
    } else if args[1] == "remove"@ {
        if args.len() < 3 {
            Err(CliErrorView::InvalidArguments)
        } else {
            Ok(CommandView::Remove { id: args[2], path: path_at(args, 3) })
        }
    } else if args[1] == "progress"@ {
        if args.len() < 4 {
            Err(CliErrorView::InvalidArguments)
        } else {
            Ok(
                CommandView::Progress {
                    id: args[2],
                    amount: joined(args.skip(3)),
                    path: path_at(args, 4),
                },
            )
        }
    } else if args[1] == "edit"@ {
        if args.len() < 3 {
            Err(CliErrorView::InvalidArguments)
        } else {
            Ok(CommandView::Edit { id: args[2], path: path_at(args, 3) })
        }
    } else {
        Err(CliErrorView::InvalidCommand)
    }
}

/// The texts of `args` as character sequences.
pub open spec fn texts(args: Seq<String>) -> Seq<Seq<char>> {
    args.map_values(|text: String| text@)
}

/// The argument at `i`, or the default path.
pub fn path_argument(args: &Vec<String>, i: usize) -> (path: String)
    ensures
        path@ == path_at(texts(args@), i as int),
{
    if i < args.len() {
        args[i].clone()
    } else {
        String::from_str(DEFAULT_PATH)
    }
}

/// The arguments from `from` on in one line, with one space between every two
/// of them.
pub fn join_from(args: &Vec<String>, from: usize) -> (line: String)
    requires
        from <= args.len(),
    ensures
        line@ == joined(texts(args@).skip(from as int)),
{
    let ghost parts = texts(args@).skip(from as int);
    let mut line = String::new();
    let mut i: usize = from;
    assert(parts.take(0) =~= Seq::empty());
    while i < args.len()
        invariant
            from <= i <= args.len(),
            parts == texts(args@).skip(from as int),
            line@ == joined(parts.take(i - from)),
        decreases args.len() - i,
    {
        proof {
            let seen = parts.take(i + 1 - from);
            assert(seen.drop_last() =~= parts.take(i - from));
            assert(seen.last() == args@[i as int]@);
            reveal_strlit(" ");
            assert(" "@ =~= seq![' ']);
            if i == from {
                assert(seen.len() == 1);
                assert(Seq::<char>::empty() + args@[i as int]@ =~= args@[i as int]@);
                assert(seen[0] == args@[i as int]@);
            }
        }
        if i > from {
            line.append(" ");
        }
        line.append(args[i].as_str());
        i += 1;
    }
    assert(parts.take(i - from) =~= parts);
    line
}

/// Whether the argument `word` is the text `name`.
fn is_word(word: &String, name: &str) -> (same: bool)
    ensures
        same == (word@ == name@),
{
    *word == String::from_str(name)
}

/// Reads the command from the arguments of the program.
pub fn parse_command(args: &Vec<String>) -> (r: Result<Command, CliError>)
    ensures
        match r {
            Ok(command) => command_of(texts(args@)) == Ok::<_, CliErrorView>(command@),
            Err(e) => command_of(texts(args@)) == Err::<CommandView, _>(e@),
        },
{
    if args.len() <= 1 {
        return Ok(Command::Help);
    }
    let name = &args[1];
    assert(texts(args@)[1] == name@);
    if is_word(name, "add") {
        Ok(Command::Add { path: path_argument(args, 2) })
    } else if is_word(name, "list") {
        Ok(Command::List { path: path_argument(args, 2) })
    } else if is_word(name, "remove") {
        if args.len() < 3 {
            Err(CliError::InvalidArguments)
        } else {
            assert(texts(args@)[2] == args@[2]@);
            Ok(Command::Remove { id: args[2].clone(), path: path_argument(args, 3) })
        }
    } else if is_word(name, "progress") {
        if args.len() < 4 {
            Err(CliError::InvalidArguments)
        } else {
            assert(texts(args@)[2] == args@[2]@);
            Ok(
                Command::Progress {
                    id: args[2].clone(),
                    amount: join_from(args, 3),
                    path: path_argument(args, 4),
                },
            )
        }
    } else if is_word(name, "edit") {
        if args.len() < 3 {
            Err(CliError::InvalidArguments)
        } else {
            assert(texts(args@)[2] == args@[2]@);
            Ok(Command::Edit { id: args[2].clone(), path: path_argument(args, 3) })
        }
    } else {
        Err(CliError::InvalidCommand)
    }
}

} // verus!

//! Which command a command line asks for, and the decisions the commands take
//! before they start the MongoDB tools.

use vstd::prelude::*;
use crate::text::str_eq;
use crate::process::ProcessSpec;
use crate::database::{Database, opt_str_view, dump_args_spec, restore_args_spec};

verus! {

/// The commands of the command line.
#[derive(PartialEq, Eq, Structural, Clone, Copy, Debug)]
pub enum CommandKind {
    ConnectionList,
    ConnectionShow,
    ConnectionAdd,
    ConnectionRemove,
    ConnectionEdit,
    ListDatabases,
    Dump,
    Migrate,
    Restore,
    Shell,
    Null,
}

/// The command named by a subcommand and, under `connection`, its own
/// subcommand; anything else does nothing.
pub open spec fn command_spec(subcommand: Seq<char>, nested: Seq<char>) -> CommandKind {
    if subcommand == "connection"@ {
        if nested == "list"@ {
            CommandKind::ConnectionList
        } else if nested == "add"@ {
            CommandKind::ConnectionAdd
        } else if nested == "remove"@ {
            CommandKind::ConnectionRemove
        } else if nested == "edit"@ {
            CommandKind::ConnectionEdit
        } else if nested == "show"@ {
            CommandKind::ConnectionShow
        } else {
            CommandKind::Null
        }
    } else if subcommand == "listdatabases"@ {
        CommandKind::ListDatabases
    } else if subcommand == "dump"@ {
        CommandKind::Dump
    } else if subcommand == "migrate"@ {
        CommandKind::Migrate
    } else if subcommand == "restore"@ {
        CommandKind::Restore
    } else if subcommand == "shell"@ {
        CommandKind::Shell
    } else {
        CommandKind::Null
    }
}

/// Each command is chosen by its own name and by nothing else: a top-level
/// command by its subcommand name alone, whatever follows it; a
/// `connection` command by `connection` and its nested name.
pub proof fn lemma_command_names(sub: Seq<char>, nested: Seq<char>)
    ensures
        command_spec(sub, nested) == CommandKind::ListDatabases <==> sub == "listdatabases"@,
        command_spec(sub, nested) == CommandKind::Dump <==> sub == "dump"@,
        command_spec(sub, nested) == CommandKind::Migrate <==> sub == "migrate"@,
        command_spec(sub, nested) == CommandKind::Restore <==> sub == "restore"@,
        command_spec(sub, nested) == CommandKind::Shell <==> sub == "shell"@,
        command_spec(sub, nested) == CommandKind::ConnectionList <==> (sub == "connection"@ && nested
            == "list"@),
        command_spec(sub, nested) == CommandKind::ConnectionAdd <==> (sub == "connection"@ && nested
            == "add"@),
        command_spec(sub, nested) == CommandKind::ConnectionRemove <==> (sub == "connection"@
            && nested == "remove"@),
        command_spec(sub, nested) == CommandKind::ConnectionEdit <==> (sub == "connection"@ && nested
            == "edit"@),
        command_spec(sub, nested) == CommandKind::ConnectionShow <==> (sub == "connection"@ && nested
            == "show"@),
{
    reveal_strlit("connection");
    reveal_strlit("listdatabases");
    reveal_strlit("dump");
    reveal_strlit("migrate");
    reveal_strlit("restore");
    reveal_strlit("shell");
    reveal_strlit("list");
    reveal_strlit("add");
    reveal_strlit("remove");
    reveal_strlit("edit");
    reveal_strlit("show");
    assert("listdatabases"@ != "connection"@) by {
        assert("listdatabases"@.len() != "connection"@.len());
    }
    assert("dump"@ != "connection"@ && "dump"@ != "listdatabases"@) by {
        assert("dump"@.len() != "connection"@.len());
        assert("dump"@.len() != "listdatabases"@.len());
    }
    assert("migrate"@ != "connection"@ && "migrate"@ != "listdatabases"@ && "migrate"@ != "dump"@) by {
        assert("migrate"@.len() != "connection"@.len());
        assert("migrate"@.len() != "listdatabases"@.len());
        assert("migrate"@.len() != "dump"@.len());
    }
    assert("restore"@ != "connection"@ && "restore"@ != "listdatabases"@ && "restore"@ != "dump"@) by {
        assert("restore"@.len() != "connection"@.len());
        assert("restore"@.len() != "listdatabases"@.len());
        assert("restore"@.len() != "dump"@.len());
    }
    assert("shell"@ != "connection"@ && "shell"@ != "listdatabases"@ && "shell"@ != "dump"@
        && "shell"@ != "migrate"@ && "shell"@ != "restore"@) by {
        assert("shell"@.len() != "connection"@.len());
        assert("shell"@.len() != "listdatabases"@.len());
        assert("shell"@.len() != "dump"@.len());
        assert("shell"@.len() != "migrate"@.len());
        assert("shell"@.len() != "restore"@.len());
    }
    assert("add"@ != "list"@ && "remove"@ != "list"@ && "remove"@ != "add"@) by {
        assert("add"@.len() != "list"@.len());
        assert("remove"@.len() != "list"@.len());
        assert("remove"@.len() != "add"@.len());
    }
    assert("edit"@ != "add"@ && "edit"@ != "remove"@ && "show"@ != "add"@ && "show"@ != "remove"@) by {
        assert("edit"@.len() != "add"@.len());
        assert("edit"@.len() != "remove"@.len());
        assert("show"@.len() != "add"@.len());
        assert("show"@.len() != "remove"@.len());
    }
    assert("migrate"@ != "restore"@) by {
        assert("migrate"@[0] != "restore"@[0]);
    }
    assert("list"@ != "edit"@) by {
        assert("list"@[0] != "edit"@[0]);
    }
    assert("list"@ != "show"@) by {
        assert("list"@[0] != "show"@[0]);
    }
    assert("edit"@ != "show"@) by {
        assert("edit"@[0] != "show"@[0]);
    }
}

/// Outside `connection`, the nested name plays no part in the choice.
pub proof fn lemma_command_ignores_nested(sub: Seq<char>, n1: Seq<char>, n2: Seq<char>)
    requires
        sub != "connection"@,
    ensures
        command_spec(sub, n1) == command_spec(sub, n2),
{
}

/// A command reads the nested arguments exactly when it is a `connection`
/// command, and the whole command line exactly when no command is named
/// outside `connection`.
pub proof fn lemma_args_level(sub: Seq<char>, nested: Seq<char>)
    ensures
        args_level_spec(sub, nested) == ArgsLevel::Nested <==> (sub == "connection"@ && command_spec(
            sub,
            nested,
        ) != CommandKind::Null),
        args_level_spec(sub, nested) == ArgsLevel::Top <==> (sub != "connection"@ && command_spec(
            sub,
            nested,
        ) == CommandKind::Null),
{
}

/// The command for a command line whose subcommand is `subcommand` and whose
/// nested subcommand (under `connection`) is `nested`; an absent subcommand
/// is the empty name.
pub fn get_command(subcommand: &str, nested: &str) -> (r: CommandKind)
    ensures
        r == command_spec(subcommand@, nested@),
{
    if str_eq(subcommand, "connection") {
        if str_eq(nested, "list") {
            CommandKind::ConnectionList
        } else if str_eq(nested, "add") {
            CommandKind::ConnectionAdd
        } else if str_eq(nested, "remove") {
            CommandKind::ConnectionRemove
        } else if str_eq(nested, "edit") {
            CommandKind::ConnectionEdit
        } else if str_eq(nested, "show") {
            CommandKind::ConnectionShow
        } else {
            CommandKind::Null
        }
    } else if str_eq(subcommand, "listdatabases") {
        CommandKind::ListDatabases
    } else if str_eq(subcommand, "dump") {
        CommandKind::Dump
    } else if str_eq(subcommand, "migrate") {
        CommandKind::Migrate
    } else if str_eq(subcommand, "restore") {
        CommandKind::Restore
    } else if str_eq(subcommand, "shell") {
        CommandKind::Shell
    } else {
        CommandKind::Null
    }
}

/// Which level of the command line a command reads its arguments from.
#[derive(PartialEq, Eq, Structural, Clone, Copy, Debug)]
pub enum ArgsLevel {
    /// The whole command line.
    Top,
    /// The subcommand's own arguments.
    Subcommand,
    /// The arguments of the subcommand nested under `connection`.
    Nested,
}

/// The level a command line's command reads from: the nested subcommand's
/// arguments for the `connection` commands, the subcommand's for the other
/// named commands and for an unknown `connection` subcommand, the whole line
/// otherwise.
pub open spec fn args_level_spec(subcommand: Seq<char>, nested: Seq<char>) -> ArgsLevel {
    if subcommand == "connection"@ {
        if command_spec(subcommand, nested) == CommandKind::Null {
            ArgsLevel::Subcommand
        } else {
            ArgsLevel::Nested
        }
    } else if command_spec(subcommand, nested) == CommandKind::Null {
        ArgsLevel::Top
    } else {
        ArgsLevel::Subcommand
    }
}

/// The level of the command line whose arguments the selected command gets.
pub fn get_args_level(subcommand: &str, nested: &str) -> (r: ArgsLevel)
    ensures
        r == args_level_spec(subcommand@, nested@),
{
    let kind = get_command(subcommand, nested);
    if str_eq(subcommand, "connection") {
        if kind == CommandKind::Null {
            ArgsLevel::Subcommand
        } else {
            ArgsLevel::Nested
        }
    } else if kind == CommandKind::Null {
        ArgsLevel::Top
    } else {
        ArgsLevel::Subcommand
    }
}

/// Why a command stops before it starts any tool.
#[derive(Debug)]
pub enum CommandError {
    /// A required argument is absent; the text says which.
    MissingArgument(String),
    /// The destination connection is marked read only.
    ReadOnlyDestination,
}

/// The text a command error is reported with.
pub open spec fn command_error_message(e: &CommandError) -> Seq<char> {
    match e {
        CommandError::MissingArgument(what) => what@,
        CommandError::ReadOnlyDestination => "Destination is read only"@,
    }
}

/// A missing argument is reported with the text given for it; a read-only
/// destination with its own message.
pub proof fn lemma_command_error_message(what: String)
    ensures
        command_error_message(&CommandError::MissingArgument(what)) == what@,
        command_error_message(&CommandError::ReadOnlyDestination) == "Destination is read only"@,
{
}

impl CommandError {
    /// The text this error is reported with.
    pub fn message(&self) -> (r: String)
        ensures
            r@ == command_error_message(self),
    {
        match self {
            CommandError::MissingArgument(what) => what.clone(),
            CommandError::ReadOnlyDestination => String::from_str("Destination is read only"),
        }
    }
}

/// A required argument's value, or `MissingArgument` with the text `missing`
/// when it is absent.
pub fn require_arg(value: Option<&str>, missing: &str) -> (r: Result<String, CommandError>)
    ensures
        match value {
            Some(v) => r matches Ok(s) && s@ == v@,
            None => r matches Err(CommandError::MissingArgument(m)) && m@ == missing@,
        },
{
    match value {
        Some(v) => Ok(String::from_str(v)),
        None => Err(CommandError::MissingArgument(String::from_str(missing))),
    }
}

/// The command that does nothing; it stands for every command line that
/// names no command.
pub struct NullCommand;

impl NullCommand {
    /// Does nothing, successfully.
    pub fn run(&mut self) -> (r: Result<(), CommandError>)
        ensures
            r is Ok,
    {
        Ok(())
    }
}

/// The two tools a migration runs: a dump of the source piped into a restore
/// of the destination.
pub struct MigrationPlan {
    pub dump: ProcessSpec,
    pub restore: ProcessSpec,
}

/// Plans copying `source` into `destination`: refused when the destination
/// is read only, else a dump of the source and a restore into the
/// destination that renames the source database's namespaces.
pub fn plan_migration(source: &Database, destination: &Database) -> (r: Result<
    MigrationPlan,
    CommandError,
>)
    ensures
        destination.server.read_only ==> r matches Err(CommandError::ReadOnlyDestination),
        !destination.server.read_only ==> (r matches Ok(plan) && {
            &&& plan.dump.program@ == "mongodump"@
            &&& plan.dump.args_view() == dump_args_spec(source)
            &&& plan.restore.program@ == "mongorestore"@
            &&& plan.restore.args_view() == restore_args_spec(destination, Some(source.db_name@))
        }),
{
    if destination.server.read_only {
        return Err(CommandError::ReadOnlyDestination);
    }
    let restore = destination.restore(Some(source.db_name.as_str()));
    let dump = source.dump();
    Ok(MigrationPlan { dump, restore })
}

/// Plans restoring a dump into `destination`: refused when the destination
/// is read only, else the restore, renaming from `from` when given.
pub fn plan_restore(destination: &Database, from: Option<&str>) -> (r: Result<
    ProcessSpec,
    CommandError,
>)
    ensures
        destination.server.read_only ==> r matches Err(CommandError::ReadOnlyDestination),
        !destination.server.read_only ==> (r matches Ok(p) && {
            &&& p.program@ == "mongorestore"@
            &&& p.args_view() == restore_args_spec(destination, opt_str_view(from))
        }),
{
    if destination.server.read_only {
        return Err(CommandError::ReadOnlyDestination);
    }
    Ok(destination.restore(from))
}

} // verus!

use mongodex::command::{get_args_level, ArgsLevel, get_command, plan_migration, plan_restore, require_arg, CommandError, CommandKind, NullCommand};
use mongodex::database::Database;
use mongodex::server::Server;

fn database(read_only: bool, db: &str) -> Database {
    Database::select(
        Server {
            name: "n".to_string(),
            read_only,
            host: "h".to_string(),
            username: "u".to_string(),
            password: "p".to_string(),
            use_ssl: false,
            repl_set_name: None,
            auth_source: None,
        },
        db.to_string(),
    )
}

#[test]
fn commands_by_name() {
    assert_eq!(get_command("connection", "list"), CommandKind::ConnectionList);
    assert_eq!(get_command("connection", "add"), CommandKind::ConnectionAdd);
    assert_eq!(get_command("connection", "remove"), CommandKind::ConnectionRemove);
    assert_eq!(get_command("connection", "edit"), CommandKind::ConnectionEdit);
    assert_eq!(get_command("connection", "show"), CommandKind::ConnectionShow);
    assert_eq!(get_command("connection", ""), CommandKind::Null);
    assert_eq!(get_command("listdatabases", ""), CommandKind::ListDatabases);
    assert_eq!(get_command("dump", ""), CommandKind::Dump);
    assert_eq!(get_command("migrate", ""), CommandKind::Migrate);
    assert_eq!(get_command("restore", ""), CommandKind::Restore);
    assert_eq!(get_command("shell", ""), CommandKind::Shell);
    assert_eq!(get_command("tunnel", "list"), CommandKind::Null);
    assert_eq!(get_command("", ""), CommandKind::Null);
    assert_eq!(get_command("dump", "list"), CommandKind::Dump);
}

#[test]
fn null_command_succeeds() {
    assert!(NullCommand.run().is_ok());
}

#[test]
fn required_arguments() {
    assert_eq!(require_arg(Some("x"), "No name").ok(), Some("x".to_string()));
    match require_arg(None, "No connection name provided") {
        Err(e) => assert_eq!(e.message(), "No connection name provided"),
        Ok(_) => panic!("argument is missing"),
    }
}

#[test]
fn migration_into_read_only_destination_is_refused() {
    match plan_migration(&database(false, "a"), &database(true, "b")) {
        Err(CommandError::ReadOnlyDestination) => {}
        _ => panic!("read-only destination must be refused"),
    }
    assert_eq!(CommandError::ReadOnlyDestination.message(), "Destination is read only");
}

#[test]
fn migration_renames_source_into_destination() {
    let source = database(true, "a");
    let destination = database(false, "b");
    let plan = plan_migration(&source, &destination).ok().expect("destination is writable");
    assert_eq!(plan.dump.args, source.dump().args);
    assert_eq!(plan.restore.args, destination.restore(Some("a")).args);
    assert!(plan.restore.args.contains(&"--nsFrom=a.*".to_string()));
    assert!(plan.restore.args.contains(&"--nsTo=b.*".to_string()));
}

#[test]
fn restore_plans() {
    assert!(matches!(plan_restore(&database(true, "b"), None), Err(CommandError::ReadOnlyDestination)));
    let p = plan_restore(&database(false, "b"), Some("a")).ok().expect("writable");
    assert_eq!(p.program, "mongorestore");
    assert_eq!(p.args, database(false, "b").restore(Some("a")).args);
}

#[test]
fn argument_levels() {
    assert_eq!(get_args_level("connection", "add"), ArgsLevel::Nested);
    assert_eq!(get_args_level("connection", "show"), ArgsLevel::Nested);
    assert_eq!(get_args_level("connection", "bogus"), ArgsLevel::Subcommand);
    assert_eq!(get_args_level("dump", ""), ArgsLevel::Subcommand);
    assert_eq!(get_args_level("tunnel", "list"), ArgsLevel::Top);
    assert_eq!(get_args_level("", ""), ArgsLevel::Top);
}

use mongodex::database::{Database, parse_target};
use mongodex::server::Server;

fn server(user: &str, repl: Option<&str>, auth: Option<&str>, ssl: bool) -> Server {
    Server {
        name: "prod".to_string(),
        read_only: false,
        host: "db.example.com:27017".to_string(),
        username: user.to_string(),
        password: "pw".to_string(),
        use_ssl: ssl,
        repl_set_name: repl.map(|s| s.to_string()),
        auth_source: auth.map(|s| s.to_string()),
    }
}

fn strings(v: &[&str]) -> Vec<String> {
    v.iter().map(|s| s.to_string()).collect()
}

#[test]
fn target_with_database() {
    let t = Database::from_str("sales@prod");
    assert_eq!(t.connection, "prod");
    assert_eq!(t.database, Some("sales".to_string()));
}

#[test]
fn target_without_database() {
    let t = Database::from_str("prod");
    assert_eq!(t.connection, "prod");
    assert_eq!(t.database, None);
}

#[test]
fn target_splits_at_last_at_sign() {
    let t = parse_target("user@mail@prod");
    assert_eq!(t.connection, "prod");
    assert_eq!(t.database, Some("user@mail".to_string()));
    let t = parse_target("@prod");
    assert_eq!(t.database, Some("".to_string()));
    let t = parse_target("db@");
    assert_eq!(t.connection, "");
    assert_eq!(t.database, Some("db".to_string()));
}

#[test]
fn target_round_trip() {
    for input in ["a@b", "b", "x@y@z", "@", ""] {
        let t = parse_target(input);
        let text = match &t.database {
            Some(d) => format!("{}@{}", d, t.connection),
            None => t.connection.clone(),
        };
        assert_eq!(text, input);
        assert!(!t.connection.contains('@'));
    }
}

#[test]
fn with_server_selects_given_database() {
    let t = parse_target("sales@prod");
    match t.with_server(server("u", None, None, false)) {
        Ok(d) => {
            assert_eq!(d.db_name, "sales");
            assert_eq!(d.server().name, "prod");
        }
        Err(_) => panic!("database was given"),
    }
}

#[test]
fn with_server_hands_back_server_without_database() {
    let t = parse_target("prod");
    match t.with_server(server("u", None, None, false)) {
        Ok(_) => panic!("no database was given"),
        Err(s) => assert_eq!(s.host, "db.example.com:27017"),
    }
}

#[test]
fn database_dump_arguments() {
    let d = Database::select(server("admin", None, None, false), "sales".to_string());
    let p = d.dump();
    assert_eq!(p.program, "mongodump");
    assert_eq!(
        p.args,
        strings(&["--host=db.example.com:27017", "--username=admin", "--password=pw", "--db=sales", "--archive"])
    );
}

#[test]
fn dump_arguments_with_replica_set_auth_and_ssl() {
    let d = Database::select(server("admin", Some("rs0"), Some("admin"), true), "sales".to_string());
    let p = d.dump();
    assert_eq!(
        p.args,
        strings(&[
            "--host=rs0/db.example.com:27017",
            "--username=admin",
            "--password=pw",
            "--db=sales",
            "--archive",
            "--authenticationDatabase=admin",
            "--ssl",
        ])
    );
}

#[test]
fn restore_arguments_from_other_database() {
    let d = Database::select(server("admin", None, Some("auth"), true), "copy".to_string());
    let p = d.restore(Some("sales"));
    assert_eq!(p.program, "mongorestore");
    assert_eq!(
        p.args,
        strings(&[
            "--host=db.example.com:27017",
            "--username=admin",
            "--password=pw",
            "--archive",
            "--drop",
            "--authenticationDatabase=auth",
            "--nsFrom=sales.*",
            "--nsTo=copy.*",
            "--ssl",
        ])
    );
}

#[test]
fn restore_arguments_same_database() {
    let d = Database::select(server("", None, None, false), "sales".to_string());
    let p = d.restore(None);
    assert_eq!(
        p.args,
        strings(&[
            "--host=db.example.com:27017",
            "--username=",
            "--password=pw",
            "--archive",
            "--drop",
            "--nsInclude=sales",
        ])
    );
}

#[test]
fn dump_and_restore_reach_same_server() {
    let d = Database::select(server("admin", Some("rs0"), Some("admin"), true), "sales".to_string());
    let dump = d.dump();
    for source in [None, Some("other")] {
        let restore = d.restore(source);
        assert_eq!(dump.args[..3], restore.args[..3]);
    }
    assert_eq!(dump.args[0], "--host=rs0/db.example.com:27017");
}

use mongodex::connection_info::{ConnectionInfo, ConnectionTarget};
use mongodex::error::ConnectionError;

fn info(ssl: bool) -> ConnectionInfo {
    ConnectionInfo::new("localhost".to_string(), "u".to_string(), "p".to_string(), ssl)
}

fn strings(v: &[&str]) -> Vec<String> {
    v.iter().map(|s| s.to_string()).collect()
}

#[test]
fn list_databases_names_three() {
    assert_eq!(info(false).list_databases(), strings(&["testdb", "testdb2", "testdb3"]));
}

#[test]
fn info_dump_arguments() {
    let p = info(true).dump("sales");
    assert_eq!(p.program, "mongodump");
    assert_eq!(
        p.args,
        strings(&["--host=localhost", "--username=u", "--password=p", "--db=sales", "--archive", "--ssl"])
    );
}

#[test]
fn info_restore_arguments() {
    let p = info(false).restore("sales", Some("copy"));
    assert_eq!(p.program, "mongorestore");
    assert_eq!(
        p.args,
        strings(&["--host=localhost", "--username=u", "--password=p", "--archive", "--nsFrom=sales.*", "--nsTo=copy.*"])
    );
    let p = info(true).restore("sales", None);
    assert_eq!(
        p.args,
        strings(&["--host=localhost", "--username=u", "--password=p", "--archive", "--nsInclude=sales.*", "--ssl"])
    );
}

#[test]
fn target_dump_and_restore() {
    let t = ConnectionTarget::new(info(false), "sales".to_string());
    assert_eq!(t.dump().args, info(false).dump("sales").args);
    assert_eq!(t.restore(Some("x")).args, info(false).restore("sales", Some("x")).args);
    assert_eq!(t.info().host, "localhost");
}

#[test]
fn target_parse_and_complete() {
    let spec = ConnectionTarget::from_str("sales@local");
    assert_eq!(spec.connection, "local");
    match spec.with_info(info(false)) {
        Ok(t) => assert_eq!(t.db_name, "sales"),
        Err(_) => panic!("database was given"),
    }
    let spec = ConnectionTarget::from_str("local");
    assert!(spec.with_info(info(false)).is_err());
}

#[test]
fn require_saved_reports_missing_name() {
    match ConnectionInfo::require_saved::<u8>("prod", None) {
        Err(ConnectionError::NoSuchConnection(name)) => assert_eq!(name, "prod"),
        _ => panic!("missing entry expected"),
    }
    assert_eq!(ConnectionInfo::require_saved("prod", Some(7u8)).ok(), Some(7u8));
}

use mongodex::server::{Endpoint, Server, ServerAnswers, ServerList};

fn server(user: &str, host: &str) -> Server {
    Server {
        name: "local".to_string(),
        read_only: false,
        host: host.to_string(),
        username: user.to_string(),
        password: "secret".to_string(),
        use_ssl: false,
        repl_set_name: None,
        auth_source: None,
    }
}

fn answers(password: &str, repl: &str, auth: &str) -> ServerAnswers {
    ServerAnswers {
        read_only: true,
        host: "h:1".to_string(),
        username: "me".to_string(),
        password: password.to_string(),
        use_ssl: true,
        repl_set_name: repl.to_string(),
        auth_source: auth.to_string(),
    }
}

fn strings(v: &[&str]) -> Vec<String> {
    v.iter().map(|s| s.to_string()).collect()
}

#[test]
fn shell_with_credentials() {
    let mut s = server("admin", "localhost");
    s.auth_source = Some("admin".to_string());
    s.use_ssl = true;
    let p = s.shell();
    assert_eq!(p.program, "mongo");
    assert_eq!(
        p.args,
        strings(&[
            "--host=localhost",
            "--username=admin",
            "--password=secret",
            "--authenticationDatabase=admin",
            "--ssl",
        ])
    );
}

#[test]
fn shell_without_username_passes_no_credentials() {
    let mut s = server("", "localhost");
    s.repl_set_name = Some("rs0".to_string());
    assert_eq!(s.shell().args, strings(&["--host=rs0/localhost"]));
    assert_eq!(s.host_arg(), "--host=rs0/localhost");
}

#[test]
fn from_details_turns_empty_answers_into_none() {
    let s = Server::from_details("new".to_string(), answers("pw", "", ""));
    assert_eq!(s.name, "new");
    assert!(s.read_only);
    assert_eq!(s.host, "h:1");
    assert_eq!(s.username, "me");
    assert_eq!(s.password, "pw");
    assert!(s.use_ssl);
    assert_eq!(s.repl_set_name, None);
    assert_eq!(s.auth_source, None);
    let s = Server::from_details("new".to_string(), answers("pw", "rs0", "admin"));
    assert_eq!(s.repl_set_name, Some("rs0".to_string()));
    assert_eq!(s.auth_source, Some("admin".to_string()));
}

#[test]
fn update_details_keeps_password_when_left_empty() {
    let mut s = server("old", "old-host");
    s.update_details(answers("", "rs1", ""));
    assert_eq!(s.password, "secret");
    assert_eq!(s.name, "local");
    assert_eq!(s.host, "h:1");
    assert_eq!(s.username, "me");
    assert_eq!(s.repl_set_name, Some("rs1".to_string()));
    assert_eq!(s.auth_source, None);
    s.update_details(answers("new", "", "admin"));
    assert_eq!(s.password, "new");
    assert_eq!(s.repl_set_name, None);
    assert_eq!(s.auth_source, Some("admin".to_string()));
}

#[test]
fn update_with_own_answers_keeps_server() {
    let mut s = server("u", "h");
    s.repl_set_name = Some("rs".to_string());
    let own = ServerAnswers {
        read_only: s.read_only,
        host: s.host.clone(),
        username: s.username.clone(),
        password: String::new(),
        use_ssl: s.use_ssl,
        repl_set_name: "rs".to_string(),
        auth_source: String::new(),
    };
    let mut t = server("u", "h");
    t.repl_set_name = Some("rs".to_string());
    t.update_details(own);
    assert_eq!(t.password, s.password);
    assert_eq!(t.repl_set_name, s.repl_set_name);
    assert_eq!(t.auth_source, s.auth_source);
    assert_eq!(t.host, s.host);
}

#[test]
fn client_settings_one_endpoint_per_host() {
    let s = server("admin", "alpha:27017,Beta");
    let c = s.try_client_settings().expect("hosts are valid");
    assert_eq!(c.hosts.len(), 2);
    match &c.hosts[0] {
        Endpoint::Tcp { host, port } => {
            assert_eq!(host, "alpha");
            assert_eq!(*port, Some(27017));
        }
        Endpoint::Unix { .. } => panic!("tcp address expected"),
    }
    match &c.hosts[1] {
        Endpoint::Tcp { host, port } => {
            assert_eq!(host, "beta");
            assert_eq!(*port, None);
        }
        Endpoint::Unix { .. } => panic!("tcp address expected"),
    }
    let cred = c.credential.expect("username is set");
    assert_eq!(cred.username, "admin");
    assert_eq!(cred.password, "secret");
    assert_eq!(cred.source, None);
    assert!(!c.tls);
    assert_eq!(c.repl_set_name, None);
}

#[test]
fn client_settings_socket_path() {
    let s = server("", "/tmp/mongodb-27017.sock");
    let c = s.client_settings();
    match &c.hosts[0] {
        Endpoint::Unix { path } => assert_eq!(path, "/tmp/mongodb-27017.sock"),
        Endpoint::Tcp { .. } => panic!("socket path expected"),
    }
    assert!(c.credential.is_none());
}

#[test]
fn client_settings_tls_and_replica_set() {
    let mut s = server("", "h");
    s.use_ssl = true;
    s.repl_set_name = Some("rs0".to_string());
    let c = s.client_settings();
    assert!(c.tls);
    assert_eq!(c.repl_set_name, Some("rs0".to_string()));
}

#[test]
fn client_settings_refused_host() {
    assert!(server("", "h:0").try_client_settings().is_none());
    assert!(server("", "h:notaport").try_client_settings().is_none());
    assert!(server("", "good,").try_client_settings().is_none());
    assert!(server("", "").try_client_settings().is_none());
}

#[test]
fn listing_under_plain_header() {
    let list = ServerList::from(vec![server("", "localhost"), server("", "remote")]);
    let header = ServerList::header();
    assert_eq!(header, format!("{: <10}\t{: <70}", "Name", "Host"));
    let text = list.render_with_header(&header);
    let expected = format!(
        "{}\n{: <10}\t{: <70}\n{: <10}\t{: <70}\n",
        header, "local", "localhost", "local", "remote"
    );
    assert_eq!(text, expected);
}

#[test]
fn listing_of_no_servers_is_the_header() {
    let list = ServerList(Vec::new());
    assert_eq!(list.render_with_header("H"), "H\n");
}

#[test]
fn rendered_listing_has_plain_or_bold_header() {
    let list = ServerList::from(vec![server("", "localhost")]);
    let header = ServerList::header();
    let text = list.render();
    let plain = list.render_with_header(&header);
    let bold = list.render_with_header(&format!("\u{1b}[1m{}\u{1b}[0m", header));
    assert!(text == plain || text == bold);
}

#[test]
fn details_from_own_values_give_server_back() {
    let mut s = server("u", "h1,h2");
    s.auth_source = Some("admin".to_string());
    let answers = ServerAnswers {
        read_only: s.read_only,
        host: s.host.clone(),
        username: s.username.clone(),
        password: s.password.clone(),
        use_ssl: s.use_ssl,
        repl_set_name: String::new(),
        auth_source: "admin".to_string(),
    };
    let made = Server::from_details(s.name.clone(), answers);
    assert_eq!(made.name, s.name);
    assert_eq!(made.host, s.host);
    assert_eq!(made.password, s.password);
    assert_eq!(made.repl_set_name, s.repl_set_name);
    assert_eq!(made.auth_source, s.auth_source);
}

#[test]
fn empty_optional_value_is_not_kept_by_own_answers() {
    let mut s = server("u", "h");
    s.repl_set_name = Some(String::new());
    s.update_details(ServerAnswers {
        read_only: false,
        host: "h".to_string(),
        username: "u".to_string(),
        password: String::new(),
        use_ssl: false,
        repl_set_name: String::new(),
        auth_source: String::new(),
    });
    assert_eq!(s.repl_set_name, None);
}

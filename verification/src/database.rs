//! A database on a saved server, how a `[database@]connection` target names
//! one, and the `mongodump` / `mongorestore` invocations that copy it.

use vstd::prelude::*;
use crate::text::{join2, join3, opt_view, rsplit_once, split_last, lemma_rsplit_once};
use crate::process::{ProcessSpec, ssl_args_spec, lemma_contains_concat, starts_with, has_option, none_keyed, lemma_none_keyed_excludes, lemma_none_keyed_no_option, lemma_starts_with_concat};
use crate::server::{Server, host_arg_spec, auth_args_spec, credential_args_spec, host_text};

verus! {

/// A target as written on the command line: the saved connection's name and,
/// when given, the database on it.
pub struct TargetSpec {
    pub connection: String,
    pub database: Option<String>,
}

/// How `[database@]connection` reads: the text after the last `@` names the
/// connection and the text before it the database; with no `@` the whole
/// text names the connection.
pub open spec fn target_spec(input: Seq<char>) -> (Seq<char>, Option<Seq<char>>) {
    match rsplit_once(input, '@') {
        Some((before, after)) => (after, Some(before)),
        None => (input, None),
    }
}

/// The text of a target: `database@connection`, or `connection` alone.
pub open spec fn target_text(connection: Seq<char>, database: Option<Seq<char>>) -> Seq<char> {
    match database {
        Some(d) => d.push('@') + connection,
        None => connection,
    }
}

/// The view of an optional string slice.
pub open spec fn opt_str_view(o: Option<&str>) -> Option<Seq<char>> {
    match o {
        Some(s) => Some(s@),
        None => None,
    }
}

/// Reads a `[database@]connection` target.
pub fn parse_target(input: &str) -> (r: TargetSpec)
    ensures
        (r.connection@, opt_view(r.database)) == target_spec(input@),
{
    match split_last(input, '@') {
        Some((before, after)) => TargetSpec { connection: after, database: Some(before) },
        None => TargetSpec { connection: String::from_str(input), database: None },
    }
}

/// A named database on a saved server.
pub struct Database {
    pub server: Server,
    pub db_name: String,
}

/// The `mongodump` arguments for a database: the host, the credentials, the
/// database, `--archive`, then the auth source and `--ssl` where they apply.
pub open spec fn dump_args_spec(d: &Database) -> Seq<Seq<char>> {
    seq![host_arg_spec(opt_view(d.server.repl_set_name), d.server.host@)]
        + credential_args_spec(d.server.username@, d.server.password@)
        + seq!["--db="@ + d.db_name@, "--archive"@]
        + auth_args_spec(opt_view(d.server.auth_source))
        + ssl_args_spec(d.server.use_ssl)
}

/// The namespace arguments of a restore into `db_name`: renamed from the
/// source database when one is given, else only the database's own
/// namespace.
pub open spec fn namespace_args_spec(db_name: Seq<char>, source: Option<Seq<char>>) -> Seq<Seq<char>> {
    match source {
        Some(s) => seq!["--nsFrom="@ + s + ".*"@, "--nsTo="@ + db_name + ".*"@],
        None => seq!["--nsInclude="@ + db_name],
    }
}

/// The `mongorestore` arguments for a database: the host, the credentials,
/// `--archive --drop`, the auth source, the namespaces, then `--ssl`.
pub open spec fn restore_args_spec(d: &Database, source: Option<Seq<char>>) -> Seq<Seq<char>> {
    seq![host_arg_spec(opt_view(d.server.repl_set_name), d.server.host@)]
        + credential_args_spec(d.server.username@, d.server.password@)
        + seq!["--archive"@, "--drop"@]
        + auth_args_spec(opt_view(d.server.auth_source))
        + namespace_args_spec(d.db_name@, source)
        + ssl_args_spec(d.server.use_ssl)
}

impl TargetSpec {
    /// Completes the target with the saved server its connection names: the
    /// database when the target gave one, else the server back, for a
    /// database to be chosen on it.
    pub fn with_server(self, server: Server) -> (r: Result<Database, Server>)
        ensures
            match self.database {
                Some(db) => r matches Ok(d) && d.server == server && d.db_name == db,
                None => r matches Err(s) && s == server,
            },
    {
        match self.database {
            Some(db) => Ok(Database::select(server, db)),
            None => Err(server),
        }
    }
}

impl Database {
    /// The database `db_name` on `server`.
    pub fn select(server: Server, db_name: String) -> (r: Database)
        ensures
            r.server == server,
            r.db_name == db_name,
    {
        Database { server, db_name }
    }

    /// Reads a `[database@]connection` target naming a database.
    pub fn from_str(input: &str) -> (r: TargetSpec)
        ensures
            (r.connection@, opt_view(r.database)) == target_spec(input@),
    {
        parse_target(input)
    }

    /// The server the database is on.
    pub fn server(&self) -> (r: &Server)
        ensures
            *r == self.server,
    {
        &self.server
    }

    /// The `mongodump` invocation that writes this database to standard
    /// output as an archive.
    pub fn dump(&self) -> (r: ProcessSpec)
        ensures
            r.program@ == "mongodump"@,
            r.args_view() == dump_args_spec(self),
    {
        let mut p = ProcessSpec::new("mongodump");
        p.arg(self.server.host_arg());
        self.server.credential_args(&mut p);
        p.arg(join2("--db=", self.db_name.as_str()));
        p.arg(String::from_str("--archive"));
        self.server.auth_args(&mut p);
        p.ssl_arg(self.server.use_ssl);
        assert(p.args_view() =~= dump_args_spec(self));
        p
    }

    /// The `mongorestore` invocation that reads an archive from standard input
    /// into this database, replacing its collections; `source` names the
    /// database the archive was taken from when it differs.
    pub fn restore(&self, source: Option<&str>) -> (r: ProcessSpec)
        ensures
            r.program@ == "mongorestore"@,
            r.args_view() == restore_args_spec(self, opt_str_view(source)),
    {
        let mut p = ProcessSpec::new("mongorestore");
        p.arg(self.server.host_arg());
        self.server.credential_args(&mut p);
        p.arg(String::from_str("--archive"));
        p.arg(String::from_str("--drop"));
        self.server.auth_args(&mut p);
        let ghost before_ns = p.args_view();
        match source {
            Some(source_name) => {
                p.arg(join3("--nsFrom=", source_name, ".*"));
                p.arg(join3("--nsTo=", self.db_name.as_str(), ".*"));
            },
            None => {
                p.arg(join2("--nsInclude=", self.db_name.as_str()));
            },
        }
        assert(p.args_view() =~= before_ns + namespace_args_spec(self.db_name@, opt_str_view(source)));
        p.ssl_arg(self.server.use_ssl);
        assert(p.args_view() =~= restore_args_spec(self, opt_str_view(source)));
        p
    }
}

/// A dump and a restore of the same database reach the same server as the
/// same user: their host and credential arguments agree, whatever the restore
/// renames from.
pub proof fn lemma_dump_and_restore_reach_same_server(d: &Database, source: Option<Seq<char>>)
    ensures
        dump_args_spec(d).take(3) == restore_args_spec(d, source).take(3),
        dump_args_spec(d)[0] == host_arg_spec(opt_view(d.server.repl_set_name), d.server.host@),
{
    assert(dump_args_spec(d).take(3) =~= restore_args_spec(d, source).take(3));
}

/// What the `mongodump` arguments of a database hold: the server's host
/// first; its username and password; the database and `--archive`;
/// `--ssl` exactly when the server uses TLS; an `--authenticationDatabase=`
/// option exactly when an auth source is saved, naming it; nothing else.
pub proof fn lemma_dump_args(d: &Database)
    ensures
        dump_args_spec(d).len() == 5 + (if d.server.auth_source is Some { 1int } else { 0 }) + (
        if d.server.use_ssl {
            1int
        } else {
            0
        }),
        dump_args_spec(d)[0] == host_text(&d.server),
        dump_args_spec(d).contains("--username="@ + d.server.username@),
        dump_args_spec(d).contains("--password="@ + d.server.password@),
        dump_args_spec(d).contains("--db="@ + d.db_name@),
        dump_args_spec(d).contains("--archive"@),
        dump_args_spec(d).contains("--ssl"@) <==> d.server.use_ssl,
        has_option(dump_args_spec(d), "--authenticationDatabase="@) <==> d.server.auth_source is Some,
        d.server.auth_source matches Some(x) ==> dump_args_spec(d).contains(
            "--authenticationDatabase="@ + x@,
        ),
{
    reveal_strlit("--host=");
    reveal_strlit("/");
    reveal_strlit("--username=");
    reveal_strlit("--password=");
    reveal_strlit("--db=");
    reveal_strlit("--archive");
    reveal_strlit("--authenticationDatabase=");
    reveal_strlit("--ssl");
    let a = dump_args_spec(d);
    let h = host_arg_spec(opt_view(d.server.repl_set_name), d.server.host@);
    let u = "--username="@ + d.server.username@;
    let pw = "--password="@ + d.server.password@;
    let db = "--db="@ + d.db_name@;
    let auth = auth_args_spec(opt_view(d.server.auth_source));
    let ssl = ssl_args_spec(d.server.use_ssl);
    assert(a =~= seq![h, u, pw, db, "--archive"@] + auth + ssl);
    assert(h == host_text(&d.server));
    assert(h.len() > 3 && h[2] == 'h' && h[3] == 'o');
    assert(a[1] == u && a[2] == pw && a[3] == db && a[4] == "--archive"@);
    if d.server.use_ssl {
        assert(a[a.len() - 1] == "--ssl"@);
    } else {
        assert forall|i: int| 0 <= i < a.len() implies (#[trigger] a[i]).len() > 2 && a[i][2] != 's' by {
            if i >= 5 {
                assert(a[i] == auth[i - 5]);
            }
        }
        lemma_none_keyed_excludes(a, 2, "--ssl"@);
    }
    match d.server.auth_source {
        Some(x) => {
            let e = "--authenticationDatabase="@ + x@;
            assert(a[5] == e);
            lemma_starts_with_concat("--authenticationDatabase="@, x@);
            assert(starts_with(a[5], "--authenticationDatabase="@));
        },
        None => {
            assert forall|i: int| 0 <= i < a.len() implies (#[trigger] a[i]).len() > 3 && a[i][3] != 'u' by {
                if i >= 5 {
                    assert(a[i] == ssl[i - 5]);
                }
            }
            lemma_none_keyed_no_option(a, 3, "--authenticationDatabase="@);
        },
    }
}

/// What the `mongorestore` arguments of a database hold, whether or not a
/// source database is named: the server's host first; its username and
/// password; `--archive` and `--drop`; `--ssl` exactly when the server uses
/// TLS; an `--authenticationDatabase=` option exactly when an auth source is
/// saved, naming it. With a source database `s` they rename `s.*` to the
/// database's `.*` and hold no `--nsInclude=`; without one they include the
/// database by name and rename nothing.
pub proof fn lemma_restore_args(d: &Database, source: Option<Seq<char>>)
    ensures
        restore_args_spec(d, source).len() == 5 + (if d.server.auth_source is Some {
            1int
        } else {
            0
        }) + (if source is Some {
            2int
        } else {
            1
        }) + (if d.server.use_ssl {
            1int
        } else {
            0
        }),
        restore_args_spec(d, source)[0] == host_text(&d.server),
        restore_args_spec(d, source).contains("--username="@ + d.server.username@),
        restore_args_spec(d, source).contains("--password="@ + d.server.password@),
        restore_args_spec(d, source).contains("--archive"@),
        restore_args_spec(d, source).contains("--drop"@),
        restore_args_spec(d, source).contains("--ssl"@) <==> d.server.use_ssl,
        has_option(restore_args_spec(d, source), "--authenticationDatabase="@)
            <==> d.server.auth_source is Some,
        d.server.auth_source matches Some(x) ==> restore_args_spec(d, source).contains(
            "--authenticationDatabase="@ + x@,
        ),
        source matches Some(s) ==> {
            &&& restore_args_spec(d, source).contains("--nsFrom="@ + s + ".*"@)
            &&& restore_args_spec(d, source).contains("--nsTo="@ + d.db_name@ + ".*"@)
            &&& !has_option(restore_args_spec(d, source), "--nsInclude="@)
        },
        source is None ==> {
            &&& restore_args_spec(d, source).contains("--nsInclude="@ + d.db_name@)
            &&& !has_option(restore_args_spec(d, source), "--nsFrom="@)
            &&& !has_option(restore_args_spec(d, source), "--nsTo="@)
        },
{
    reveal_strlit("--host=");
    reveal_strlit("/");
    reveal_strlit("--username=");
    reveal_strlit("--password=");
    reveal_strlit("--archive");
    reveal_strlit("--drop");
    reveal_strlit("--authenticationDatabase=");
    reveal_strlit("--ssl");
    reveal_strlit("--nsFrom=");
    reveal_strlit("--nsTo=");
    reveal_strlit("--nsInclude=");
    reveal_strlit(".*");
    let a = restore_args_spec(d, source);
    let h = host_arg_spec(opt_view(d.server.repl_set_name), d.server.host@);
    let u = "--username="@ + d.server.username@;
    let pw = "--password="@ + d.server.password@;
    let auth = auth_args_spec(opt_view(d.server.auth_source));
    let ns = namespace_args_spec(d.db_name@, source);
    let ssl = ssl_args_spec(d.server.use_ssl);
    let na = auth.len() as int;
    let nn = ns.len() as int;
    assert(a =~= seq![h, u, pw, "--archive"@, "--drop"@] + auth + ns + ssl);
    assert(h == host_text(&d.server));
    assert(h.len() > 4 && h[2] == 'h' && h[3] == 'o' && h[4] == 's');
    assert(a[1] == u && a[2] == pw && a[3] == "--archive"@ && a[4] == "--drop"@);
    assert forall|i: int| 5 + na <= i < 5 + na + nn implies #[trigger] a[i] == ns[i - 5 - na] by {}
    assert forall|i: int| 5 <= i < 5 + na implies #[trigger] a[i] == auth[i - 5] by {}
    assert forall|i: int| 5 + na + nn <= i < a.len() implies #[trigger] a[i] == ssl[i - 5 - na - nn] by {}
    if d.server.use_ssl {
        assert(a[a.len() - 1] == "--ssl"@);
    } else {
        assert forall|i: int| 0 <= i < a.len() implies (#[trigger] a[i]).len() > 2 && a[i][2] != 's' by {
            if 5 <= i < 5 + na {
                assert(a[i] == auth[i - 5]);
            } else if 5 + na <= i {
                assert(a[i] == ns[i - 5 - na]);
            }
        }
        lemma_none_keyed_excludes(a, 2, "--ssl"@);
    }
    match d.server.auth_source {
        Some(x) => {
            assert(a[5] == "--authenticationDatabase="@ + x@);
            lemma_starts_with_concat("--authenticationDatabase="@, x@);
            assert(starts_with(a[5], "--authenticationDatabase="@));
        },
        None => {
            assert forall|i: int| 0 <= i < a.len() implies (#[trigger] a[i]).len() > 3 && a[i][3] != 'u' by {
                if 5 <= i < 5 + nn {
                    assert(a[i] == ns[i - 5]);
                } else if 5 + nn <= i {
                    assert(a[i] == ssl[i - 5 - nn]);
                }
            }
            lemma_none_keyed_no_option(a, 3, "--authenticationDatabase="@);
        },
    }
    match source {
        Some(s) => {
            assert(a[5 + na] == "--nsFrom="@ + s + ".*"@);
            assert(a[6 + na] == "--nsTo="@ + d.db_name@ + ".*"@);
            assert forall|i: int| 0 <= i < a.len() implies (#[trigger] a[i]).len() > 4 && a[i][4] != 'I' by {
                if 5 <= i < 5 + na {
                    assert(a[i] == auth[i - 5]);
                } else if 5 + na <= i < 5 + na + nn {
                    assert(a[i] == ns[i - 5 - na]);
                } else if 5 + na + nn <= i {
                    assert(a[i] == ssl[i - 5 - na - nn]);
                }
            }
            lemma_none_keyed_no_option(a, 4, "--nsInclude="@);
        },
        None => {
            assert(a[5 + na] == "--nsInclude="@ + d.db_name@);
            assert forall|i: int| 0 <= i < a.len() implies (#[trigger] a[i]).len() > 4 && a[i][4] != 'F' && a[i][4] != 'T' by {
                if 5 <= i < 5 + na {
                    assert(a[i] == auth[i - 5]);
                } else if 5 + na <= i < 5 + na + nn {
                    assert(a[i] == ns[i - 5 - na]);
                } else if 5 + na + nn <= i {
                    assert(a[i] == ssl[i - 5 - na - nn]);
                }
            }
            lemma_none_keyed_no_option(a, 4, "--nsFrom="@);
            lemma_none_keyed_no_option(a, 4, "--nsTo="@);
        },
    }
}

/// Naming a source database changes only the namespace options of a
/// restore: every argument that is not an `--ns` option is in the restore
/// with a source exactly when it is in the restore without one.
pub proof fn lemma_restore_source_changes_only_namespaces(d: &Database, s: Seq<char>, x: Seq<char>)
    requires
        !starts_with(x, "--ns"@),
    ensures
        restore_args_spec(d, Some(s)).contains(x) <==> restore_args_spec(d, None).contains(x),
{
    reveal_strlit("--ns");
    reveal_strlit("--nsFrom=");
    reveal_strlit("--nsTo=");
    reveal_strlit("--nsInclude=");
    reveal_strlit(".*");
    let h = host_arg_spec(opt_view(d.server.repl_set_name), d.server.host@);
    let cred = credential_args_spec(d.server.username@, d.server.password@);
    let auth = auth_args_spec(opt_view(d.server.auth_source));
    let pre = seq![h] + cred + seq!["--archive"@, "--drop"@] + auth;
    let post = ssl_args_spec(d.server.use_ssl);
    let with = namespace_args_spec(d.db_name@, Some(s));
    let without = namespace_args_spec(d.db_name@, None);
    assert(restore_args_spec(d, Some(s)) =~= pre + with + post);
    assert(restore_args_spec(d, None) =~= pre + without + post);
    lemma_contains_concat(pre + with, post, x);
    lemma_contains_concat(pre, with, x);
    lemma_contains_concat(pre + without, post, x);
    lemma_contains_concat(pre, without, x);
    assert forall|i: int| 0 <= i < with.len() implies #[trigger] with[i] != x by {
        lemma_starts_with_concat("--ns"@, with[i].subrange(4, with[i].len() as int));
        assert(with[i] =~= "--ns"@ + with[i].subrange(4, with[i].len() as int));
    }
    assert forall|i: int| 0 <= i < without.len() implies #[trigger] without[i] != x by {
        lemma_starts_with_concat("--ns"@, without[i].subrange(4, without[i].len() as int));
        assert(without[i] =~= "--ns"@ + without[i].subrange(4, without[i].len() as int));
    }
}

/// `rsplit_once` finds the `@` that precedes a text free of `@`.
proof fn lemma_rsplit_after_free(before: Seq<char>, after: Seq<char>)
    requires
        !after.contains('@'),
    ensures
        rsplit_once(before.push('@') + after, '@') == Some((before, after)),
    decreases after.len(),
{
    let s = before.push('@') + after;
    if after.len() == 0 {
        assert(s =~= before.push('@'));
        assert(s.drop_last() =~= before);
    } else {
        let t = after.drop_last();
        assert(!t.contains('@')) by {
            if t.contains('@') {
                let k = choose|k: int| 0 <= k < t.len() && t[k] == '@';
                assert(after[k] == '@');
            }
        }
        lemma_rsplit_after_free(before, t);
        assert(s.drop_last() =~= before.push('@') + t);
        assert(after.last() != '@') by {
            assert(after[after.len() - 1] == after.last());
        }
        assert(t.push(after.last()) =~= after);
    }
}

/// A target's text reads back as the target: `database@connection` gives that
/// database and connection whenever the connection's name holds no `@` (the
/// database's name may), and a name with no `@` is a connection alone.
pub proof fn lemma_target_text_parses_back(connection: Seq<char>, database: Option<Seq<char>>)
    requires
        !connection.contains('@'),
    ensures
        target_spec(target_text(connection, database)).0 == connection,
        target_spec(target_text(connection, database)).1 == database,
{
    if database is Some {
        let d = database->0;
        lemma_rsplit_after_free(d, connection);
        assert(target_text(connection, database) == d.push('@') + connection);
    } else {
        lemma_rsplit_once(connection, '@');
        if let Some((b, a)) = rsplit_once(connection, '@') {
            assert((b.push('@') + a)[b.len() as int] == '@');
        }
    }
}

/// Reading a target and writing it out again gives the text that was read,
/// and the connection read never holds an `@`.
pub proof fn lemma_target_round_trip(input: Seq<char>)
    ensures
        target_text(target_spec(input).0, target_spec(input).1) == input,
        !target_spec(input).0.contains('@'),
{
    lemma_rsplit_once(input, '@');
}

} // verus!

//! Connection details kept by name in a local store, and a database target
//! on one of them.

use vstd::prelude::*;
use crate::text::{join2, join3, opt_view, views};
use crate::process::{ProcessSpec, ssl_args_spec, has_option, lemma_none_keyed_excludes, lemma_none_keyed_no_option};
use crate::database::{TargetSpec, target_spec, parse_target, opt_str_view};
use crate::error::ConnectionError;

verus! {

/// The details needed to reach a server.
pub struct ConnectionInfo {
    pub host: String,
    pub username: String,
    pub password: String,
    pub use_ssl: bool,
}

/// The first arguments of both tools: the host and the credentials.
pub open spec fn info_args_spec(info: &ConnectionInfo) -> Seq<Seq<char>> {
    seq![
        "--host="@ + info.host@,
        "--username="@ + info.username@,
        "--password="@ + info.password@,
    ]
}

/// The `mongodump` arguments that dump database `db`.
pub open spec fn info_dump_args_spec(info: &ConnectionInfo, db: Seq<char>) -> Seq<Seq<char>> {
    info_args_spec(info) + seq!["--db="@ + db, "--archive"@] + ssl_args_spec(info.use_ssl)
}

/// The `mongorestore` arguments that restore a dump of `source`: into `dest`
/// when given, else into `source` itself.
pub open spec fn info_restore_args_spec(
    info: &ConnectionInfo,
    source: Seq<char>,
    dest: Option<Seq<char>>,
) -> Seq<Seq<char>> {
    info_args_spec(info) + seq!["--archive"@] + (match dest {
        Some(d) => seq!["--nsFrom="@ + source + ".*"@, "--nsTo="@ + d + ".*"@],
        None => seq!["--nsInclude="@ + source + ".*"@],
    }) + ssl_args_spec(info.use_ssl)
}

/// The databases offered for a connection.
pub open spec fn listed_databases_spec() -> Seq<Seq<char>> {
    seq!["testdb"@, "testdb2"@, "testdb3"@]
}

/// The databases offered are `testdb`, `testdb2` and `testdb3`, in that
/// order, with no repeats.
pub proof fn lemma_listed_databases()
    ensures
        listed_databases_spec().len() == 3,
        listed_databases_spec()[0] == "testdb"@,
        listed_databases_spec()[1] == "testdb2"@,
        listed_databases_spec()[2] == "testdb3"@,
        listed_databases_spec()[0] != listed_databases_spec()[1],
        listed_databases_spec()[1] != listed_databases_spec()[2],
        listed_databases_spec()[0] != listed_databases_spec()[2],
{
    reveal_strlit("testdb");
    reveal_strlit("testdb2");
    reveal_strlit("testdb3");
    assert("testdb"@.len() != "testdb2"@.len());
    assert("testdb2"@[6] != "testdb3"@[6]);
}

impl ConnectionInfo {
    /// Connection details from their parts.
    pub fn new(host: String, username: String, password: String, use_ssl: bool) -> (r: ConnectionInfo)
        ensures
            r.host == host,
            r.username == username,
            r.password == password,
            r.use_ssl == use_ssl,
    {
        ConnectionInfo { host, username, password, use_ssl }
    }

    /// The stored entry for `name`, or `NoSuchConnection` naming it when the
    /// store holds none.
    pub fn require_saved<T>(name: &str, entry: Option<T>) -> (r: Result<T, ConnectionError>)
        ensures
            match entry {
                Some(v) => r == Ok::<T, ConnectionError>(v),
                None => r matches Err(ConnectionError::NoSuchConnection(n)) && n@ == name@,
            },
    {
        match entry {
            Some(v) => Ok(v),
            None => Err(ConnectionError::NoSuchConnection(String::from_str(name))),
        }
    }

    /// The databases that can be chosen on this connection.
    pub fn list_databases(&self) -> (r: Vec<String>)
        ensures
            views(r@) == listed_databases_spec(),
    {
        let mut r: Vec<String> = Vec::new();
        r.push(String::from_str("testdb"));
        r.push(String::from_str("testdb2"));
        r.push(String::from_str("testdb3"));
        assert(views(r@) =~= listed_databases_spec());
        r
    }

    /// Adds the host and credential arguments.
    fn connection_args(&self, p: &mut ProcessSpec)
        ensures
            final(p).program@ == old(p).program@,
            final(p).args_view() == old(p).args_view() + info_args_spec(self),
    {
        p.arg(join2("--host=", self.host.as_str()));
        p.arg(join2("--username=", self.username.as_str()));
        p.arg(join2("--password=", self.password.as_str()));
        assert(final(p).args_view() =~= old(p).args_view() + info_args_spec(self));
    }

    /// The `mongodump` invocation that writes database `db` to standard
    /// output as an archive.
    pub fn dump(&self, db: &str) -> (r: ProcessSpec)
        ensures
            r.program@ == "mongodump"@,
            r.args_view() == info_dump_args_spec(self, db@),
    {
        let mut p = ProcessSpec::new("mongodump");
        self.connection_args(&mut p);
        p.arg(join2("--db=", db));
        p.arg(String::from_str("--archive"));
        p.ssl_arg(self.use_ssl);
        assert(p.args_view() =~= info_dump_args_spec(self, db@));
        p
    }

    /// The `mongorestore` invocation that reads an archive of database
    /// `source` from standard input, into `dest` when given.
    pub fn restore(&self, source: &str, dest: Option<&str>) -> (r: ProcessSpec)
        ensures
            r.program@ == "mongorestore"@,
            r.args_view() == info_restore_args_spec(self, source@, opt_str_view(dest)),
    {
        let mut p = ProcessSpec::new("mongorestore");
        self.connection_args(&mut p);
        p.arg(String::from_str("--archive"));
        match dest {
            Some(dest_name) => {
                p.arg(join3("--nsFrom=", source, ".*"));
                p.arg(join3("--nsTo=", dest_name, ".*"));
            },
            None => {
                p.arg(join3("--nsInclude=", source, ".*"));
            },
        }
        p.ssl_arg(self.use_ssl);
        assert(p.args_view() =~= info_restore_args_spec(self, source@, opt_str_view(dest)));
        p
    }
}

/// What the `mongodump` arguments for database `db` on a connection hold:
/// the host first, the username and password, the database and
/// `--archive`, and `--ssl` exactly when the connection uses TLS; nothing
/// else.
pub proof fn lemma_info_dump_args(info: &ConnectionInfo, db: Seq<char>)
    ensures
        info_dump_args_spec(info, db).len() == 5 + (if info.use_ssl {
            1int
        } else {
            0
        }),
        info_dump_args_spec(info, db)[0] == "--host="@ + info.host@,
        info_dump_args_spec(info, db).contains("--username="@ + info.username@),
        info_dump_args_spec(info, db).contains("--password="@ + info.password@),
        info_dump_args_spec(info, db).contains("--db="@ + db),
        info_dump_args_spec(info, db).contains("--archive"@),
        info_dump_args_spec(info, db).contains("--ssl"@) <==> info.use_ssl,
{
    reveal_strlit("--host=");
    reveal_strlit("--username=");
    reveal_strlit("--password=");
    reveal_strlit("--db=");
    reveal_strlit("--archive");
    reveal_strlit("--ssl");
    let a = info_dump_args_spec(info, db);
    assert(a =~= seq![
        "--host="@ + info.host@,
        "--username="@ + info.username@,
        "--password="@ + info.password@,
        "--db="@ + db,
        "--archive"@,
    ] + ssl_args_spec(info.use_ssl));
    assert(a[1] == "--username="@ + info.username@);
    assert(a[2] == "--password="@ + info.password@);
    assert(a[3] == "--db="@ + db);
    assert(a[4] == "--archive"@);
    if info.use_ssl {
        assert(a[5] == "--ssl"@);
    } else {
        assert forall|i: int| 0 <= i < a.len() implies (#[trigger] a[i]).len() > 2 && a[i][2] != 's' by {}
        lemma_none_keyed_excludes(a, 2, "--ssl"@);
    }
}

/// What the `mongorestore` arguments for a dump of `source` hold: the host
/// first, the username and password, `--archive`, and `--ssl` exactly when
/// the connection uses TLS. Into another database `d` they rename `source.*`
/// to `d.*` and include nothing by name; otherwise they include `source.*`
/// and rename nothing.
pub proof fn lemma_info_restore_args(info: &ConnectionInfo, source: Seq<char>, dest: Option<Seq<char>>)
    ensures
        info_restore_args_spec(info, source, dest).len() == 4 + (if dest is Some {
            2int
        } else {
            1
        }) + (if info.use_ssl {
            1int
        } else {
            0
        }),
        info_restore_args_spec(info, source, dest)[0] == "--host="@ + info.host@,
        info_restore_args_spec(info, source, dest).contains("--username="@ + info.username@),
        info_restore_args_spec(info, source, dest).contains("--password="@ + info.password@),
        info_restore_args_spec(info, source, dest).contains("--archive"@),
        info_restore_args_spec(info, source, dest).contains("--ssl"@) <==> info.use_ssl,
        dest matches Some(d) ==> {
            &&& info_restore_args_spec(info, source, dest).contains("--nsFrom="@ + source + ".*"@)
            &&& info_restore_args_spec(info, source, dest).contains("--nsTo="@ + d + ".*"@)
            &&& !has_option(info_restore_args_spec(info, source, dest), "--nsInclude="@)
        },
        dest is None ==> {
            &&& info_restore_args_spec(info, source, dest).contains(
                "--nsInclude="@ + source + ".*"@,
            )
            &&& !has_option(info_restore_args_spec(info, source, dest), "--nsFrom="@)
            &&& !has_option(info_restore_args_spec(info, source, dest), "--nsTo="@)
        },
{
    reveal_strlit("--host=");
    reveal_strlit("--username=");
    reveal_strlit("--password=");
    reveal_strlit("--archive");
    reveal_strlit("--ssl");
    reveal_strlit("--nsFrom=");
    reveal_strlit("--nsTo=");
    reveal_strlit("--nsInclude=");
    reveal_strlit(".*");
    let a = info_restore_args_spec(info, source, dest);
    let ns = match dest {
        Some(d) => seq!["--nsFrom="@ + source + ".*"@, "--nsTo="@ + d + ".*"@],
        None => seq!["--nsInclude="@ + source + ".*"@],
    };
    let ssl = ssl_args_spec(info.use_ssl);
    let nn = ns.len() as int;
    assert(a =~= seq![
        "--host="@ + info.host@,
        "--username="@ + info.username@,
        "--password="@ + info.password@,
        "--archive"@,
    ] + ns + ssl);
    assert(a[1] == "--username="@ + info.username@);
    assert(a[2] == "--password="@ + info.password@);
    assert(a[3] == "--archive"@);
    assert forall|i: int| 4 <= i < 4 + nn implies #[trigger] a[i] == ns[i - 4] by {}
    assert forall|i: int| 4 + nn <= i < a.len() implies #[trigger] a[i] == ssl[i - 4 - nn] by {}
    if info.use_ssl {
        assert(a[a.len() - 1] == "--ssl"@);
    } else {
        assert forall|i: int| 0 <= i < a.len() implies (#[trigger] a[i]).len() > 2 && a[i][2] != 's' by {
            if 4 <= i {
                assert(a[i] == ns[i - 4]);
            }
        }
        lemma_none_keyed_excludes(a, 2, "--ssl"@);
    }
    match dest {
        Some(d) => {
            assert(a[4] == "--nsFrom="@ + source + ".*"@);
            assert(a[5] == "--nsTo="@ + d + ".*"@);
            assert forall|i: int| 0 <= i < a.len() implies (#[trigger] a[i]).len() > 4 && a[i][4] != 'I' by {
                if 4 <= i < 4 + nn {
                    assert(a[i] == ns[i - 4]);
                } else if 4 + nn <= i {
                    assert(a[i] == ssl[i - 4 - nn]);
                }
            }
            lemma_none_keyed_no_option(a, 4, "--nsInclude="@);
        },
        None => {
            assert(a[4] == "--nsInclude="@ + source + ".*"@);
            assert forall|i: int| 0 <= i < a.len() implies (#[trigger] a[i]).len() > 4 && a[i][4] != 'F' && a[i][4] != 'T' by {
                if 4 <= i < 4 + nn {
                    assert(a[i] == ns[i - 4]);
                } else if 4 + nn <= i {
                    assert(a[i] == ssl[i - 4 - nn]);
                }
            }
            lemma_none_keyed_no_option(a, 4, "--nsFrom="@);
            lemma_none_keyed_no_option(a, 4, "--nsTo="@);
        },
    }
}

/// A database on a saved connection.
pub struct ConnectionTarget {
    pub info: ConnectionInfo,
    pub db_name: String,
}

impl TargetSpec {
    /// Completes the target with the details its connection names: the
    /// database when the target gave one, else the details back, for a
    /// database to be chosen.
    pub fn with_info(self, info: ConnectionInfo) -> (r: Result<ConnectionTarget, ConnectionInfo>)
        ensures
            match self.database {
                Some(db) => r matches Ok(t) && t.info == info && t.db_name == db,
                None => r matches Err(i) && i == info,
            },
    {
        match self.database {
            Some(db) => Ok(ConnectionTarget::new(info, db)),
            None => Err(info),
        }
    }
}

impl ConnectionTarget {
    /// The database `db_name` on the connection `info`.
    pub fn new(info: ConnectionInfo, db_name: String) -> (r: ConnectionTarget)
        ensures
            r.info == info,
            r.db_name == db_name,
    {
        ConnectionTarget { info, db_name }
    }

    /// Reads a `[database@]connection` target.
    pub fn from_str(input: &str) -> (r: TargetSpec)
        ensures
            (r.connection@, opt_view(r.database)) == target_spec(input@),
    {
        parse_target(input)
    }

    /// The connection details the target is on.
    pub fn info(&self) -> (r: &ConnectionInfo)
        ensures
            *r == self.info,
    {
        &self.info
    }

    /// The `mongodump` invocation for this target's database.
    pub fn dump(&self) -> (r: ProcessSpec)
        ensures
            r.program@ == "mongodump"@,
            r.args_view() == info_dump_args_spec(&self.info, self.db_name@),
    {
        self.info.dump(self.db_name.as_str())
    }

    /// The `mongorestore` invocation that restores a dump of this target's
    /// database, into `destination` when given.
    pub fn restore(&self, destination: Option<&str>) -> (r: ProcessSpec)
        ensures
            r.program@ == "mongorestore"@,
            r.args_view() == info_restore_args_spec(
                &self.info,
                self.db_name@,
                opt_str_view(destination),
            ),
    {
        self.info.restore(self.db_name.as_str(), destination)
    }
}

} // verus!

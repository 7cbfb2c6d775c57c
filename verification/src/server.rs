//! Saved MongoDB servers: their details, the arguments that reach them from the
//! MongoDB tools, the driver settings they stand for, and how a list of them reads.

use vstd::prelude::*;
use colored::Colorize;
use crate::text::{lemma_pad_right, spaces, join2, opt_view, optional, optional_spec, split_all, split_seq, views, pad_right, pad_right_spec, push_char};
use crate::process::{ProcessSpec, ssl_args_spec, starts_with, has_option, lemma_none_keyed_excludes, lemma_none_keyed_no_option, lemma_starts_with_concat};

verus! {

/// A saved connection to a MongoDB server (or replica set).
pub struct Server {
    pub name: String,
    pub read_only: bool,
    pub host: String,
    pub username: String,
    pub password: String,
    pub use_ssl: bool,
    pub repl_set_name: Option<String>,
    pub auth_source: Option<String>,
}

/// What a user answers when asked for a server's details; the optional
/// fields are left empty for "none".
pub struct ServerAnswers {
    pub read_only: bool,
    pub host: String,
    pub username: String,
    pub password: String,
    pub use_ssl: bool,
    pub repl_set_name: String,
    pub auth_source: String,
}

/// `--host=<host>`, or `--host=<replica set>/<host>` for a replica set.
pub open spec fn host_arg_spec(repl_set_name: Option<Seq<char>>, host: Seq<char>) -> Seq<char> {
    match repl_set_name {
        Some(r) => "--host="@ + r + "/"@ + host,
        None => "--host="@ + host,
    }
}

/// `--authenticationDatabase=<source>` when an auth source is saved.
pub open spec fn auth_args_spec(auth_source: Option<Seq<char>>) -> Seq<Seq<char>> {
    match auth_source {
        Some(a) => seq!["--authenticationDatabase="@ + a],
        None => Seq::<Seq<char>>::empty(),
    }
}

/// `--username=<u>` and `--password=<p>`.
pub open spec fn credential_args_spec(username: Seq<char>, password: Seq<char>) -> Seq<Seq<char>> {
    seq!["--username="@ + username, "--password="@ + password]
}

/// The arguments of the `mongo` shell for a server: the host, the credentials
/// when a username is saved, the auth source when one is saved, and `--ssl`.
pub open spec fn shell_args_spec(s: &Server) -> Seq<Seq<char>> {
    seq![host_arg_spec(opt_view(s.repl_set_name), s.host@)]
        + (if s.username@.len() > 0 {
            credential_args_spec(s.username@, s.password@)
        } else {
            Seq::<Seq<char>>::empty()
        })
        + auth_args_spec(opt_view(s.auth_source))
        + ssl_args_spec(s.use_ssl)
}

/// The server that a name and a set of answers describe.
pub open spec fn server_from_answers_spec(name: Seq<char>, a: &ServerAnswers, s: &Server) -> bool {
    &&& s.name@ == name
    &&& s.read_only == a.read_only
    &&& s.host@ == a.host@
    &&& s.username@ == a.username@
    &&& s.password@ == a.password@
    &&& s.use_ssl == a.use_ssl
    &&& opt_view(s.repl_set_name) == optional_spec(a.repl_set_name@)
    &&& opt_view(s.auth_source) == optional_spec(a.auth_source@)
}

/// The answers hold a server's own values, other than its password, with
/// each optional field written out (empty for none).
pub open spec fn answers_hold_values_of(s: &Server, a: &ServerAnswers) -> bool {
    &&& a.read_only == s.read_only
    &&& a.host@ == s.host@
    &&& a.username@ == s.username@
    &&& a.use_ssl == s.use_ssl
    &&& a.repl_set_name@ == (match s.repl_set_name {
        Some(r) => r@,
        None => Seq::<char>::empty(),
    })
    &&& a.auth_source@ == (match s.auth_source {
        Some(r) => r@,
        None => Seq::<char>::empty(),
    })
}

/// `after` is `before` with the answers taken: an empty password keeps the
/// saved one, empty optional fields clear them, the name stays.
pub open spec fn updated_details_spec(before: &Server, a: &ServerAnswers, after: &Server) -> bool {
    &&& after.name@ == before.name@
    &&& after.read_only == a.read_only
    &&& after.host@ == a.host@
    &&& after.username@ == a.username@
    &&& after.password@ == (if a.password@.len() == 0 {
        before.password@
    } else {
        a.password@
    })
    &&& after.use_ssl == a.use_ssl
    &&& opt_view(after.repl_set_name) == optional_spec(a.repl_set_name@)
    &&& opt_view(after.auth_source) == optional_spec(a.auth_source@)
}

/// Whether two servers hold the same values.
pub open spec fn same_server(a: &Server, b: &Server) -> bool {
    &&& a.name@ == b.name@
    &&& a.read_only == b.read_only
    &&& a.host@ == b.host@
    &&& a.username@ == b.username@
    &&& a.password@ == b.password@
    &&& a.use_ssl == b.use_ssl
    &&& opt_view(a.repl_set_name) == opt_view(b.repl_set_name)
    &&& opt_view(a.auth_source) == opt_view(b.auth_source)
}

/// No optional field holds an empty value.
pub open spec fn no_empty_optionals(s: &Server) -> bool {
    &&& (s.repl_set_name matches Some(r) ==> r@.len() > 0)
    &&& (s.auth_source matches Some(a) ==> a@.len() > 0)
}

/// Copies an optional string.
pub fn clone_opt(o: &Option<String>) -> (r: Option<String>)
    ensures
        opt_view(r) == opt_view(*o),
{
    match o {
        Some(s) => Some(s.clone()),
        None => None,
    }
}

impl Server {
    /// `--host=...` for this server.
    pub fn host_arg(&self) -> (r: String)
        ensures
            r@ == host_arg_spec(opt_view(self.repl_set_name), self.host@),
    {
        match &self.repl_set_name {
            Some(r) => {
                let mut a = join2("--host=", r.as_str());
                a.append("/");
                a.append(self.host.as_str());
                a
            },
            None => join2("--host=", self.host.as_str()),
        }
    }

    /// Adds `--username=...` and `--password=...` for this server.
    pub fn credential_args(&self, p: &mut ProcessSpec)
        ensures
            final(p).program@ == old(p).program@,
            final(p).args_view() == old(p).args_view() + credential_args_spec(
                self.username@,
                self.password@,
            ),
    {
        p.arg(join2("--username=", self.username.as_str()));
        p.arg(join2("--password=", self.password.as_str()));
        assert(final(p).args_view() =~= old(p).args_view() + credential_args_spec(
            self.username@,
            self.password@,
        ));
    }

    /// Adds `--authenticationDatabase=...` when this server has an auth source.
    pub fn auth_args(&self, p: &mut ProcessSpec)
        ensures
            final(p).program@ == old(p).program@,
            final(p).args_view() == old(p).args_view() + auth_args_spec(opt_view(self.auth_source)),
    {
        match &self.auth_source {
            Some(a) => {
                p.arg(join2("--authenticationDatabase=", a.as_str()));
            },
            None => {},
        }
        assert(final(p).args_view() =~= old(p).args_view() + auth_args_spec(
            opt_view(self.auth_source),
        ));
    }

    /// The `mongo` shell invocation that opens a shell on this server.
    pub fn shell(&self) -> (r: ProcessSpec)
        ensures
            r.program@ == "mongo"@,
            r.args_view() == shell_args_spec(self),
    {
        let mut p = ProcessSpec::new("mongo");
        p.arg(self.host_arg());
        let ghost after_host = p.args_view();
        if self.username.unicode_len() > 0 {
            self.credential_args(&mut p);
        } else {
            assert(after_host + Seq::<Seq<char>>::empty() =~= after_host);
        }
        self.auth_args(&mut p);
        p.ssl_arg(self.use_ssl);
        assert(p.args_view() =~= shell_args_spec(self));
        p
    }

    /// The server described by `name` and the answers given for it.
    pub fn from_details(name: String, answers: ServerAnswers) -> (r: Server)
        ensures
            server_from_answers_spec(name@, &answers, &r),
    {
        Server {
            name,
            read_only: answers.read_only,
            host: answers.host,
            username: answers.username,
            password: answers.password,
            use_ssl: answers.use_ssl,
            repl_set_name: optional(answers.repl_set_name),
            auth_source: optional(answers.auth_source),
        }
    }

    /// Takes new answers for a saved server: an empty password keeps the one
    /// saved, empty optional fields clear them, the name stays.
    pub fn update_details(&mut self, answers: ServerAnswers)
        ensures
            updated_details_spec(old(self), &answers, final(self)),
    {
        self.read_only = answers.read_only;
        self.host = answers.host;
        self.username = answers.username;
        if answers.password.unicode_len() > 0 {
            self.password = answers.password;
        }
        self.use_ssl = answers.use_ssl;
        self.repl_set_name = optional(answers.repl_set_name);
        self.auth_source = optional(answers.auth_source);
    }
}

/// Giving a saved server its own values again (password left empty) leaves
/// it as it was, unless an optional field holds an empty value, which the
/// answers cannot tell apart from no value.
pub proof fn lemma_update_with_own_answers_keeps_server(
    before: &Server,
    answers: &ServerAnswers,
    after: &Server,
)
    requires
        no_empty_optionals(before),
        answers_hold_values_of(before, answers),
        answers.password@.len() == 0,
        updated_details_spec(before, answers, after),
    ensures
        same_server(before, after),
{
}

/// Writing a server's own values as answers for a new server with its name
/// gives that server again, when its password is kept in the answers and no
/// optional field holds an empty value.
pub proof fn lemma_details_round_trip(s: &Server, answers: &ServerAnswers, made: &Server)
    requires
        no_empty_optionals(s),
        answers_hold_values_of(s, answers),
        answers.password@ == s.password@,
        server_from_answers_spec(s.name@, answers, made),
    ensures
        same_server(s, made),
{
}

/// The `--host=` argument a server is reached with, written out from its
/// saved host and replica set.
pub open spec fn host_text(s: &Server) -> Seq<char> {
    match s.repl_set_name {
        Some(r) => "--host="@ + r@ + "/"@ + s.host@,
        None => "--host="@ + s.host@,
    }
}

/// The `--host=` argument is the saved host behind `--host=`, with the
/// replica set and a `/` in between when one is saved.
pub proof fn lemma_host_arg(s: &Server)
    ensures
        host_arg_spec(opt_view(s.repl_set_name), s.host@) == host_text(s),
        starts_with(host_text(s), "--host="@),
        host_text(s).subrange(host_text(s).len() - s.host@.len(), host_text(s).len() as int)
            == s.host@,
{
    reveal_strlit("--host=");
    let h = host_text(s);
    match s.repl_set_name {
        Some(r) => {
            assert(h =~= "--host="@ + (r@ + "/"@ + s.host@));
            lemma_starts_with_concat("--host="@, r@ + "/"@ + s.host@);
        },
        None => {
            lemma_starts_with_concat("--host="@, s.host@);
        },
    }
    assert(h.subrange(h.len() - s.host@.len(), h.len() as int) =~= s.host@);
}

/// A new server holds its name and every answer as given, with an empty
/// replica set or auth source meaning none.
pub proof fn lemma_from_details(name: Seq<char>, a: &ServerAnswers, s: &Server)
    requires
        server_from_answers_spec(name, a, s),
    ensures
        s.name@ == name,
        s.read_only == a.read_only,
        s.use_ssl == a.use_ssl,
        s.host@ == a.host@,
        s.username@ == a.username@,
        s.password@ == a.password@,
        a.repl_set_name@.len() > 0 ==> (s.repl_set_name matches Some(r) && r@ == a.repl_set_name@),
        a.repl_set_name@.len() == 0 ==> s.repl_set_name is None,
        a.auth_source@.len() > 0 ==> (s.auth_source matches Some(r) && r@ == a.auth_source@),
        a.auth_source@.len() == 0 ==> s.auth_source is None,
{
}

/// What the `mongo` shell arguments of a server hold: its host first; its
/// username and password exactly when a username is saved, whatever the
/// replica set; `--ssl` exactly when it uses TLS; an
/// `--authenticationDatabase=` option exactly when an auth source is saved,
/// naming it; nothing else.
pub proof fn lemma_shell_args(s: &Server)
    ensures
        shell_args_spec(s).len() == 1 + (if s.username@.len() > 0 {
            2int
        } else {
            0
        }) + (if s.auth_source is Some {
            1int
        } else {
            0
        }) + (if s.use_ssl {
            1int
        } else {
            0
        }),
        shell_args_spec(s)[0] == host_text(s),
        shell_args_spec(s).contains("--username="@ + s.username@) <==> s.username@.len() > 0,
        shell_args_spec(s).contains("--password="@ + s.password@) <==> s.username@.len() > 0,
        shell_args_spec(s).contains("--ssl"@) <==> s.use_ssl,
        has_option(shell_args_spec(s), "--authenticationDatabase="@) <==> s.auth_source is Some,
        s.auth_source matches Some(x) ==> shell_args_spec(s).contains(
            "--authenticationDatabase="@ + x@,
        ),
{
    reveal_strlit("--host=");
    reveal_strlit("/");
    reveal_strlit("--username=");
    reveal_strlit("--password=");
    reveal_strlit("--authenticationDatabase=");
    reveal_strlit("--ssl");
    let a = shell_args_spec(s);
    let h = host_arg_spec(opt_view(s.repl_set_name), s.host@);
    let u = "--username="@ + s.username@;
    let pw = "--password="@ + s.password@;
    let cred = if s.username@.len() > 0 {
        credential_args_spec(s.username@, s.password@)
    } else {
        Seq::<Seq<char>>::empty()
    };
    let auth = auth_args_spec(opt_view(s.auth_source));
    let ssl = ssl_args_spec(s.use_ssl);
    let nc = cred.len() as int;
    let na = auth.len() as int;
    assert(a =~= seq![h] + cred + auth + ssl);
    assert(h == host_text(s));
    assert(h.len() > 3 && h[2] == 'h' && h[3] == 'o');
    assert forall|i: int| 1 <= i < 1 + nc implies #[trigger] a[i] == cred[i - 1] by {}
    assert forall|i: int| 1 + nc <= i < 1 + nc + na implies #[trigger] a[i] == auth[i - 1 - nc] by {}
    assert forall|i: int| 1 + nc + na <= i < a.len() implies #[trigger] a[i] == ssl[i - 1 - nc - na] by {}
    if s.username@.len() > 0 {
        assert(a[1] == u && a[2] == pw);
    } else {
        assert forall|i: int| 0 <= i < a.len() implies (#[trigger] a[i]).len() > 2 && a[i][2] != 'u' && a[i][2] != 'p' by {
            if 1 <= i < 1 + na {
                assert(a[i] == auth[i - 1]);
            } else if 1 + na <= i {
                assert(a[i] == ssl[i - 1 - na]);
            }
        }
        lemma_none_keyed_excludes(a, 2, u);
        lemma_none_keyed_excludes(a, 2, pw);
    }
    if s.use_ssl {
        assert(a[a.len() - 1] == "--ssl"@);
    } else {
        assert forall|i: int| 0 <= i < a.len() implies (#[trigger] a[i]).len() > 2 && a[i][2] != 's' by {
            if 1 <= i < 1 + nc {
                assert(a[i] == cred[i - 1]);
            } else if 1 + nc <= i {
                assert(a[i] == auth[i - 1 - nc]);
            }
        }
        lemma_none_keyed_excludes(a, 2, "--ssl"@);
    }
    match s.auth_source {
        Some(x) => {
            assert(a[1 + nc] == "--authenticationDatabase="@ + x@);
            lemma_starts_with_concat("--authenticationDatabase="@, x@);
            assert(starts_with(a[1 + nc], "--authenticationDatabase="@));
        },
        None => {
            assert forall|i: int| 0 <= i < a.len() implies (#[trigger] a[i]).len() > 3 && a[i][3] != 'u' by {
                if 1 <= i < 1 + nc {
                    assert(a[i] == cred[i - 1]);
                } else if 1 + nc <= i {
                    assert(a[i] == ssl[i - 1 - nc]);
                }
            }
            lemma_none_keyed_no_option(a, 3, "--authenticationDatabase="@);
        },
    }
}

/// What an edit leaves in a saved server: every answered field as answered
/// (read only, host, username, SSL), the password answered or, when the
/// answer is empty, the one saved; the replica set and auth source
/// answered, or none when left empty; the name as it was.
pub proof fn lemma_update_details(before: &Server, a: &ServerAnswers, after: &Server)
    requires
        updated_details_spec(before, a, after),
    ensures
        after.read_only == a.read_only,
        after.use_ssl == a.use_ssl,
        after.host@ == a.host@,
        after.username@ == a.username@,
        a.password@.len() > 0 ==> after.password@ == a.password@,
        a.password@.len() == 0 ==> after.password@ == before.password@,
        a.repl_set_name@.len() > 0 ==> (after.repl_set_name matches Some(r) && r@ == a.repl_set_name@),
        a.repl_set_name@.len() == 0 ==> after.repl_set_name is None,
        a.auth_source@.len() > 0 ==> (after.auth_source matches Some(r) && r@ == a.auth_source@),
        a.auth_source@.len() == 0 ==> after.auth_source is None,
        after.name@ == before.name@,
{
}

/// Two servers edited with the same answers agree on everything but their
/// names and, when the password is left empty, their passwords: the answers
/// alone decide the rest.
pub proof fn lemma_update_answers_decide(
    b1: &Server,
    b2: &Server,
    a: &ServerAnswers,
    r1: &Server,
    r2: &Server,
)
    requires
        updated_details_spec(b1, a, r1),
        updated_details_spec(b2, a, r2),
    ensures
        r1.read_only == r2.read_only,
        r1.use_ssl == r2.use_ssl,
        r1.host@ == r2.host@,
        r1.username@ == r2.username@,
        opt_view(r1.repl_set_name) == opt_view(r2.repl_set_name),
        opt_view(r1.auth_source) == opt_view(r2.auth_source),
        a.password@.len() > 0 ==> r1.password@ == r2.password@,
{
}

/// Making the same edit twice is the same as making it once.
pub proof fn lemma_update_twice(before: &Server, a: &ServerAnswers, mid: &Server, after: &Server)
    requires
        updated_details_spec(before, a, mid),
        updated_details_spec(mid, a, after),
    ensures
        same_server(mid, after),
{
}

/// Where a MongoDB server listens: a TCP host with an optional port, or a
/// Unix domain socket.
pub enum Endpoint {
    Tcp { host: String, port: Option<u16> },
    Unix { path: String },
}

/// An endpoint as plain values.
pub enum EndpointView {
    Tcp { host: Seq<char>, port: Option<u16> },
    Unix { path: Seq<char> },
}

impl View for Endpoint {
    type V = EndpointView;

    open spec fn view(&self) -> EndpointView {
        match self {
            Endpoint::Tcp { host, port } => EndpointView::Tcp { host: host@, port: *port },
            Endpoint::Unix { path } => EndpointView::Unix { path: path@ },
        }
    }
}

/// The endpoint that the MongoDB driver reads from an address string, or
/// `None` where it refuses the address.
pub uninterp spec fn parsed_server_address(address: Seq<char>) -> Option<EndpointView>;

/// Reads one server address (`host`, `host:port` or a `.sock` path) with
/// `mongodb::options::ServerAddress::parse`. The result is exactly the
/// driver's reading of the address (named by `parsed_server_address`), with
/// `None` where the driver returns an error; how the driver reads an address
/// (lower-casing the host, parsing the port) is not restated here.
#[verifier::external_body]
fn parse_server_address(address: &str) -> (r: Option<Endpoint>)
    ensures
        match r {
            Some(e) => parsed_server_address(address@) == Some(e@),
            None => parsed_server_address(address@) is None,
        },
{
    match mongodb::options::ServerAddress::parse(address) {
        Ok(mongodb::options::ServerAddress::Tcp { host, port }) => Some(Endpoint::Tcp { host, port }),
        Ok(mongodb::options::ServerAddress::Unix { path }) => Some(
            Endpoint::Unix { path: path.to_string_lossy().into_owned() },
        ),
        Ok(_) => None,
        Err(_) => None,
    }
}

/// The user a client authenticates as.
pub struct CredentialSettings {
    pub username: String,
    pub password: String,
    pub source: Option<String>,
}

/// What a MongoDB client is configured with for a saved server.
pub struct ClientSettings {
    pub hosts: Vec<Endpoint>,
    pub repl_set_name: Option<String>,
    pub credential: Option<CredentialSettings>,
    pub tls: bool,
}

/// The driver accepts every comma-separated piece of `host`.
pub open spec fn hosts_parse(host: Seq<char>) -> bool {
    forall|i: int|
        0 <= i < split_seq(host, ',').len() ==> (#[trigger] parsed_server_address(
            split_seq(host, ',')[i],
        )) is Some
}

/// The endpoints of the comma-separated pieces of `host`, in order.
pub open spec fn endpoints_spec(host: Seq<char>) -> Seq<EndpointView> {
    split_seq(host, ',').map_values(
        |p: Seq<char>|
            match parsed_server_address(p) {
                Some(e) => e,
                None => EndpointView::Unix { path: p },
            },
    )
}

/// The views of a sequence of endpoints.
pub open spec fn endpoint_views(v: Seq<Endpoint>) -> Seq<EndpointView> {
    v.map_values(|e: Endpoint| e@)
}

/// `c` is what a client is configured with for server `s`: every host piece,
/// the replica set, a credential exactly when a username is saved, and TLS
/// exactly when SSL is on.
pub open spec fn settings_of(s: &Server, c: &ClientSettings) -> bool {
    &&& endpoint_views(c.hosts@) == endpoints_spec(s.host@)
    &&& opt_view(c.repl_set_name) == opt_view(s.repl_set_name)
    &&& (c.credential is Some <==> s.username@.len() > 0)
    &&& (c.credential matches Some(cred) ==> {
        &&& cred.username@ == s.username@
        &&& cred.password@ == s.password@
        &&& opt_view(cred.source) == opt_view(s.auth_source)
    })
    &&& c.tls == s.use_ssl
}

impl Server {
    /// The client configuration for this server. Every comma-separated piece
    /// of the host must be an address the driver accepts.
    pub fn client_settings(&self) -> (r: ClientSettings)
        requires
            hosts_parse(self.host@),
        ensures
            settings_of(self, &r),
    {
        let pieces = split_all(self.host.as_str(), ',');
        let mut hosts: Vec<Endpoint> = Vec::new();
        let mut i: usize = 0;
        while i < pieces.len()
            invariant
                i <= pieces.len(),
                views(pieces@) == split_seq(self.host@, ','),
                hosts_parse(self.host@),
                endpoint_views(hosts@) == endpoints_spec(self.host@).take(i as int),
            decreases pieces.len() - i,
        {
            let ghost before = hosts@;
            assert(views(pieces@)[i as int] == pieces@[i as int]@);
            match parse_server_address(pieces[i].as_str()) {
                Some(e) => {
                    assert(endpoints_spec(self.host@)[i as int] == e@);
                    hosts.push(e);
                    assert(endpoint_views(hosts@) =~= endpoint_views(before).push(e@));
                },
                None => {
                    assert(parsed_server_address(split_seq(self.host@, ',')[i as int]) is Some);
                    assert(false);
                },
            }
            assert(endpoint_views(hosts@) =~= endpoints_spec(self.host@).take(i + 1));
            i = i + 1;
        }
        assert(endpoints_spec(self.host@).take(i as int) =~= endpoints_spec(self.host@));
        let credential = if self.username.unicode_len() > 0 {
            Some(
                CredentialSettings {
                    username: self.username.clone(),
                    password: self.password.clone(),
                    source: clone_opt(&self.auth_source),
                },
            )
        } else {
            None
        };
        ClientSettings {
            hosts,
            repl_set_name: clone_opt(&self.repl_set_name),
            credential,
            tls: self.use_ssl,
        }
    }

    /// The client configuration for this server, or `None` when the driver
    /// refuses one of the comma-separated pieces of the host.
    pub fn try_client_settings(&self) -> (r: Option<ClientSettings>)
        ensures
            r is Some <==> hosts_parse(self.host@),
            r matches Some(c) ==> settings_of(self, &c),
    {
        let pieces = split_all(self.host.as_str(), ',');
        let mut i: usize = 0;
        while i < pieces.len()
            invariant
                i <= pieces.len(),
                views(pieces@) == split_seq(self.host@, ','),
                forall|j: int|
                    0 <= j < i ==> (#[trigger] parsed_server_address(
                        split_seq(self.host@, ',')[j],
                    )) is Some,
            decreases pieces.len() - i,
        {
            assert(views(pieces@)[i as int] == pieces@[i as int]@);
            if parse_server_address(pieces[i].as_str()).is_none() {
                return None;
            }
            i = i + 1;
        }
        Some(self.client_settings())
    }
}

/// What a client configured for a saved server holds: one address per
/// comma-separated piece of its host, each the driver's reading of that
/// piece; its replica set; when a username is saved, a credential for that
/// username and password authenticating against the saved auth source, and
/// no credential otherwise; TLS exactly when the server uses SSL.
pub proof fn lemma_client_settings(s: &Server, c: &ClientSettings)
    requires
        settings_of(s, c),
    ensures
        c.hosts@.len() == split_seq(s.host@, ',').len(),
        forall|i: int|
            0 <= i < c.hosts@.len() && parsed_server_address(split_seq(s.host@, ',')[i]) is Some
                ==> parsed_server_address(split_seq(s.host@, ',')[i]) == Some(
                #[trigger] c.hosts@[i]@,
            ),
        opt_view(c.repl_set_name) == opt_view(s.repl_set_name),
        s.username@.len() > 0 ==> (c.credential matches Some(cred) && cred.username@ == s.username@
            && cred.password@ == s.password@ && opt_view(cred.source) == opt_view(s.auth_source)),
        s.username@.len() == 0 ==> c.credential is None,
        c.tls == s.use_ssl,
{
    assert(endpoint_views(c.hosts@).len() == c.hosts@.len());
    assert(endpoints_spec(s.host@).len() == split_seq(s.host@, ',').len());
    assert forall|i: int|
        0 <= i < c.hosts@.len() && parsed_server_address(split_seq(s.host@, ',')[i]) is Some
            implies parsed_server_address(split_seq(s.host@, ',')[i]) == Some(
        #[trigger] c.hosts@[i]@,
    ) by {
        assert(endpoint_views(c.hosts@)[i] == c.hosts@[i]@);
        assert(endpoints_spec(s.host@)[i] == c.hosts@[i]@);
    }
}

/// The driver accepts a host exactly when it accepts each of its
/// comma-separated pieces.
pub proof fn lemma_hosts_parse(host: Seq<char>)
    ensures
        hosts_parse(host) <==> forall|i: int|
            0 <= i < split_seq(host, ',').len() ==> (#[trigger] parsed_server_address(
                split_seq(host, ',')[i],
            )) is Some,
{
}

/// The saved servers, in the order they were read.
pub struct ServerList(pub Vec<Server>);

impl From<Vec<Server>> for ServerList {
    fn from(list: Vec<Server>) -> (r: ServerList)
        ensures
            r.0 == list,
    {
        ServerList(list)
    }
}

impl vstd::std_specs::convert::FromSpecImpl<Vec<Server>> for ServerList {
    open spec fn obeys_from_spec() -> bool {
        true
    }

    open spec fn from_spec(v: Vec<Server>) -> ServerList {
        ServerList(v)
    }
}

/// One line of the listing, without its line end: the first column padded to
/// 10 characters, a tab, the second column padded to 70.
pub open spec fn listing_line_spec(a: Seq<char>, b: Seq<char>) -> Seq<char> {
    pad_right_spec(a, 10).push('\t') + pad_right_spec(b, 70)
}

/// The column titles of the listing.
pub open spec fn header_spec() -> Seq<char> {
    listing_line_spec("Name"@, "Host"@)
}

/// One line per server, each ended by a line break.
pub open spec fn rows_spec(servers: Seq<Server>) -> Seq<char>
    decreases servers.len(),
{
    if servers.len() == 0 {
        Seq::<char>::empty()
    } else {
        rows_spec(servers.drop_last()) + listing_line_spec(
            servers.last().name@,
            servers.last().host@,
        ).push('\n')
    }
}

/// The whole listing under a given header line.
pub open spec fn listing_spec(header: Seq<char>, servers: Seq<Server>) -> Seq<char> {
    header.push('\n') + rows_spec(servers)
}

/// Text shown in bold on a terminal.
pub open spec fn bold_spec(s: Seq<char>) -> Seq<char> {
    "\u{1b}[1m"@ + s + "\u{1b}[0m"@
}

/// Renders `s` in bold with `colored::Colorize::bold`, formatted to a string.
/// Whether the escape codes are written depends on the environment (the
/// terminal and variables such as `NO_COLOR`), so the result is stated only
/// as one of the two outcomes, for text with no escape character in it; for
/// other text nothing is stated.
#[verifier::external_body]
fn bold(s: &str) -> (r: String)
    ensures
        !s@.contains('\u{1b}') ==> (r@ == s@ || r@ == bold_spec(s@)),
{
    format!("{}", s.bold())
}

/// A listing line holds no escape character when its columns hold none.
proof fn lemma_listing_line_plain(a: Seq<char>, b: Seq<char>)
    requires
        !a.contains('\u{1b}'),
        !b.contains('\u{1b}'),
    ensures
        !listing_line_spec(a, b).contains('\u{1b}'),
{
    let l = listing_line_spec(a, b);
    let pa = pad_right_spec(a, 10);
    let pb = pad_right_spec(b, 70);
    assert forall|j: int| 0 <= j < l.len() implies l[j] != '\u{1b}' by {
        if j < pa.len() {
            if j >= a.len() {
                assert(pa[j] == ' ');
            } else {
                assert(pa[j] == a[j]);
            }
        } else if j > pa.len() {
            let k = j - pa.len() - 1;
            assert(l[j] == pb[k]);
            if k >= b.len() {
                assert(pb[k] == ' ');
            } else {
                assert(pb[k] == b[k]);
            }
        }
    }
}

/// A listing line holds the first column at its start, padded with spaces
/// to 10 characters, then a tab, then the second column, padded with spaces
/// to 70 characters.
pub proof fn lemma_listing_line(a: Seq<char>, b: Seq<char>)
    ensures
        ({
            let l = listing_line_spec(a, b);
            let w = if a.len() >= 10 {
                a.len() as int
            } else {
                10int
            };
            let e = w + 1 + if b.len() >= 70 {
                b.len() as int
            } else {
                70int
            };
            &&& l.len() == e
            &&& l.subrange(0, a.len() as int) == a
            &&& (forall|i: int| a.len() <= i < w ==> #[trigger] l[i] == ' ')
            &&& l[w] == '\t'
            &&& l.subrange(w + 1, w + 1 + b.len()) == b
            &&& (forall|i: int| w + 1 + b.len() <= i < e ==> #[trigger] l[i] == ' ')
        }),
{
    lemma_pad_right(a, 10);
    lemma_pad_right(b, 70);
    let l = listing_line_spec(a, b);
    let pa = pad_right_spec(a, 10);
    let pb = pad_right_spec(b, 70);
    let w = pa.len() as int;
    assert(l =~= pa.push('\t') + pb);
    assert(l.subrange(0, a.len() as int) =~= pa.subrange(0, a.len() as int));
    assert forall|i: int| a.len() <= i < w implies #[trigger] l[i] == ' ' by {
        assert(l[i] == pa[i]);
    }
    assert(l.subrange(w + 1, w + 1 + b.len()) =~= pb.subrange(0, b.len() as int));
    assert forall|i: int| w + 1 + b.len() <= i < l.len() implies #[trigger] l[i] == ' ' by {
        assert(l[i] == pb[i - w - 1]);
    }
}

/// The rows of two lists of servers, one after the other, are the rows of
/// the joined list.
pub proof fn lemma_rows_concat(s: Seq<Server>, t: Seq<Server>)
    ensures
        rows_spec(s + t) == rows_spec(s) + rows_spec(t),
    decreases t.len(),
{
    if t.len() == 0 {
        assert(s + t =~= s);
        assert(rows_spec(s) + rows_spec(t) =~= rows_spec(s));
    } else {
        lemma_rows_concat(s, t.drop_last());
        assert((s + t).drop_last() =~= s + t.drop_last());
        assert((s + t).last() == t.last());
        assert(rows_spec(s + t) =~= rows_spec(s) + rows_spec(t));
    }
}

/// The row of one server is its listing line and a line break; the rows of
/// no servers are empty.
pub proof fn lemma_rows_single(x: Server)
    ensures
        rows_spec(seq![x]) == listing_line_spec(x.name@, x.host@).push('\n'),
        rows_spec(Seq::<Server>::empty()) == Seq::<char>::empty(),
{
    assert(rows_spec(Seq::<Server>::empty()) == Seq::<char>::empty());
    assert(seq![x].drop_last() =~= Seq::<Server>::empty());
    assert(seq![x].last() == x);
    assert(rows_spec(seq![x]) =~= listing_line_spec(x.name@, x.host@).push('\n'));
}

/// The listing is its header, a line break, then the rows.
pub proof fn lemma_listing(header: Seq<char>, servers: Seq<Server>)
    ensures
        listing_spec(header, servers).subrange(0, header.len() as int) == header,
        listing_spec(header, servers)[header.len() as int] == '\n',
        listing_spec(header, servers).subrange(
            header.len() + 1int,
            listing_spec(header, servers).len() as int,
        ) == rows_spec(servers),
{
    let l = listing_spec(header, servers);
    assert(l.subrange(0, header.len() as int) =~= header);
    assert(l.subrange(header.len() + 1int, l.len() as int) =~= rows_spec(servers));
}

/// The header names the columns `Name` and `Host`.
pub proof fn lemma_header()
    ensures
        header_spec().len() == 81,
        header_spec().subrange(0, 4) == "Name"@,
        header_spec()[10] == '\t',
        header_spec().subrange(11, 15) == "Host"@,
{
    reveal_strlit("Name");
    reveal_strlit("Host");
    lemma_listing_line("Name"@, "Host"@);
}

/// One listing line, without its line end.
pub fn listing_line(a: &str, b: &str) -> (r: String)
    ensures
        r@ == listing_line_spec(a@, b@),
{
    let mut r = pad_right(a, 10);
    push_char(&mut r, '\t');
    let second = pad_right(b, 70);
    r.append(second.as_str());
    r
}

impl ServerList {
    /// The column titles of the listing, unstyled.
    pub fn header() -> (r: String)
        ensures
            r@ == header_spec(),
    {
        listing_line("Name", "Host")
    }

    /// The listing under the given header line: the header, then one line
    /// per server with its name and host.
    pub fn render_with_header(&self, header: &str) -> (r: String)
        ensures
            r@ == listing_spec(header@, self.0@),
    {
        let mut r = String::from_str(header);
        push_char(&mut r, '\n');
        let mut i: usize = 0;
        while i < self.0.len()
            invariant
                i <= self.0.len(),
                r@ == listing_spec(header@, self.0@.take(i as int)),
            decreases self.0.len() - i,
        {
            let line = listing_line(self.0[i].name.as_str(), self.0[i].host.as_str());
            r.append(line.as_str());
            push_char(&mut r, '\n');
            assert(self.0@.take(i + 1).drop_last() =~= self.0@.take(i as int));
            assert(r@ =~= listing_spec(header@, self.0@.take(i + 1)));
            i = i + 1;
        }
        assert(self.0@.take(i as int) =~= self.0@);
        r
    }

    /// The listing as shown to a user: the header in bold where the terminal
    /// shows styles, then one line per server.
    pub fn render(&self) -> (r: String)
        ensures
            r@ == listing_spec(header_spec(), self.0@) || r@ == listing_spec(
                bold_spec(header_spec()),
                self.0@,
            ),
    {
        let header = ServerList::header();
        proof {
            reveal_strlit("Name");
            reveal_strlit("Host");
            assert(!"Name"@.contains('\u{1b}'));
            assert(!"Host"@.contains('\u{1b}'));
            lemma_listing_line_plain("Name"@, "Host"@);
        }
        let styled = bold(header.as_str());
        self.render_with_header(styled.as_str())
    }
}

} // verus!

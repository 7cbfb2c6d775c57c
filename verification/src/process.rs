//! The description of an external program to run: its name and its arguments.

use vstd::prelude::*;
use crate::text::views;

verus! {

/// A program and the arguments it is to be started with.
pub struct ProcessSpec {
    pub program: String,
    pub args: Vec<String>,
}

/// `--ssl` when the connection uses TLS, nothing otherwise.
pub open spec fn ssl_args_spec(use_ssl: bool) -> Seq<Seq<char>> {
    if use_ssl {
        seq!["--ssl"@]
    } else {
        Seq::<Seq<char>>::empty()
    }
}

/// `x` begins with `p`.
pub open spec fn starts_with(x: Seq<char>, p: Seq<char>) -> bool {
    p.len() <= x.len() && x.subrange(0, p.len() as int) == p
}

/// Some argument begins with `prefix`.
pub open spec fn has_option(args: Seq<Seq<char>>, prefix: Seq<char>) -> bool {
    exists|i: int| 0 <= i < args.len() && #[trigger] starts_with(args[i], prefix)
}

/// Every argument is longer than `k` characters and its character at `k`
/// differs from `c`.
pub open spec fn none_keyed(args: Seq<Seq<char>>, k: int, c: char) -> bool {
    forall|i: int| 0 <= i < args.len() ==> (#[trigger] args[i]).len() > k && args[i][k] != c
}

/// No argument is `x` when `x`'s character at `k` differs from that of
/// every argument.
pub proof fn lemma_none_keyed_excludes(args: Seq<Seq<char>>, k: int, x: Seq<char>)
    requires
        0 <= k < x.len(),
        none_keyed(args, k, x[k]),
    ensures
        !args.contains(x),
{
    if args.contains(x) {
        let i = choose|i: int| 0 <= i < args.len() && args[i] == x;
        assert(args[i][k] == x[k]);
    }
}

/// No argument begins with `p` when `p`'s character at `k` differs from that
/// of every argument.
pub proof fn lemma_none_keyed_no_option(args: Seq<Seq<char>>, k: int, p: Seq<char>)
    requires
        0 <= k < p.len(),
        none_keyed(args, k, p[k]),
    ensures
        !has_option(args, p),
{
    if has_option(args, p) {
        let i = choose|i: int| 0 <= i < args.len() && #[trigger] starts_with(args[i], p);
        assert(args[i].subrange(0, p.len() as int)[k] == args[i][k]);
    }
}

/// An element of two sequences joined is an element of one of them.
pub proof fn lemma_contains_concat(a: Seq<Seq<char>>, b: Seq<Seq<char>>, x: Seq<char>)
    ensures
        (a + b).contains(x) <==> (a.contains(x) || b.contains(x)),
{
    if (a + b).contains(x) {
        let i = choose|i: int| 0 <= i < (a + b).len() && (a + b)[i] == x;
        if i < a.len() {
            assert(a[i] == x);
        } else {
            assert(b[i - a.len()] == x);
        }
    }
    if a.contains(x) {
        let i = choose|i: int| 0 <= i < a.len() && a[i] == x;
        assert((a + b)[i] == x);
    }
    if b.contains(x) {
        let i = choose|i: int| 0 <= i < b.len() && b[i] == x;
        assert((a + b)[a.len() + i] == x);
    }
}

/// A text made of `p` and more begins with `p`.
pub proof fn lemma_starts_with_concat(p: Seq<char>, rest: Seq<char>)
    ensures
        starts_with(p + rest, p),
{
    assert((p + rest).subrange(0, p.len() as int) =~= p);
}

impl ProcessSpec {
    /// The arguments, as character sequences.
    pub open spec fn args_view(&self) -> Seq<Seq<char>> {
        views(self.args@)
    }

    /// A program with no arguments yet.
    pub fn new(program: &str) -> (r: ProcessSpec)
        ensures
            r.program@ == program@,
            r.args_view() == Seq::<Seq<char>>::empty(),
    {
        let r = ProcessSpec { program: String::from_str(program), args: Vec::new() };
        assert(r.args_view() =~= Seq::<Seq<char>>::empty());
        r
    }

    /// Adds one argument at the end.
    pub fn arg(&mut self, a: String)
        ensures
            final(self).program@ == old(self).program@,
            final(self).args_view() == old(self).args_view().push(a@),
    {
        let ghost before = self.args_view();
        self.args.push(a);
        assert(self.args_view() =~= before.push(a@));
    }

    /// Adds `--ssl` when `use_ssl` holds.
    pub fn ssl_arg(&mut self, use_ssl: bool)
        ensures
            final(self).program@ == old(self).program@,
            final(self).args_view() == old(self).args_view() + ssl_args_spec(use_ssl),
    {
        if use_ssl {
            self.arg(String::from_str("--ssl"));
            assert(old(self).args_view() + ssl_args_spec(use_ssl) =~= old(self).args_view().push("--ssl"@));
        } else {
            assert(old(self).args_view() + ssl_args_spec(use_ssl) =~= old(self).args_view());
        }
    }
}

} // verus!

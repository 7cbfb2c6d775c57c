//! Character-level string helpers with exact specifications.

use vstd::prelude::*;

verus! {

/// Splits `s` at the last occurrence of `sep`: the text before it and the text
/// after it, or `None` when `sep` does not occur.
pub open spec fn rsplit_once(s: Seq<char>, sep: char) -> Option<(Seq<char>, Seq<char>)>
    decreases s.len(),
{
    if s.len() == 0 {
        None
    } else if s.last() == sep {
        Some((s.drop_last(), Seq::<char>::empty()))
    } else {
        match rsplit_once(s.drop_last(), sep) {
            Some((before, after)) => Some((before, after.push(s.last()))),
            None => None,
        }
    }
}

/// The pieces of `s` between occurrences of `sep`; there is always at least one.
pub open spec fn split_seq(s: Seq<char>, sep: char) -> Seq<Seq<char>>
    decreases s.len(),
{
    if s.len() == 0 {
        seq![Seq::<char>::empty()]
    } else {
        let pieces = split_seq(s.drop_last(), sep);
        if s.last() == sep {
            pieces.push(Seq::<char>::empty())
        } else {
            pieces.update(pieces.len() - 1, pieces.last().push(s.last()))
        }
    }
}

/// The pieces joined together, with `sep` between neighbours.
pub open spec fn join_seq(pieces: Seq<Seq<char>>, sep: char) -> Seq<char>
    decreases pieces.len(),
{
    if pieces.len() == 0 {
        Seq::<char>::empty()
    } else if pieces.len() == 1 {
        pieces[0]
    } else {
        join_seq(pieces.drop_last(), sep).push(sep) + pieces.last()
    }
}

/// `n` spaces.
pub open spec fn spaces(n: nat) -> Seq<char> {
    Seq::new(n, |i: int| ' ')
}

/// `s` followed by spaces up to `width` characters; `s` itself when it is
/// already that long.
pub open spec fn pad_right_spec(s: Seq<char>, width: nat) -> Seq<char> {
    if s.len() >= width {
        s
    } else {
        s + spaces((width - s.len()) as nat)
    }
}

/// The views of a sequence of strings.
pub open spec fn views(v: Seq<String>) -> Seq<Seq<char>> {
    v.map_values(|s: String| s@)
}

/// The view of an optional string.
pub open spec fn opt_view(o: Option<String>) -> Option<Seq<char>> {
    match o {
        Some(s) => Some(s@),
        None => None,
    }
}

/// An answer left empty stands for "no value".
pub open spec fn optional_spec(value: Seq<char>) -> Option<Seq<char>> {
    if value.len() == 0 {
        None
    } else {
        Some(value)
    }
}

/// Appends one character to a string.
/// Calls `String::push`, which std documents as appending the character to the end.
#[verifier::external_body]
pub(crate) fn push_char(s: &mut String, c: char)
    ensures
        final(s)@ == old(s)@.push(c),
{
    s.push(c);
}

/// The characters of `s`, in order.
pub fn chars_of(s: &str) -> (r: Vec<char>)
    ensures
        r@ == s@,
{
    let mut r: Vec<char> = Vec::new();
    for c in it: s.chars()
        invariant
            r@ == it.seq().take(it.index() as int),
    {
        r.push(c);
    }
    r
}

/// `a` followed by `b`.
pub fn join2(a: &str, b: &str) -> (r: String)
    ensures
        r@ == a@ + b@,
{
    let mut r = String::from_str(a);
    r.append(b);
    r
}

/// `a`, then `b`, then `c`.
pub fn join3(a: &str, b: &str, c: &str) -> (r: String)
    ensures
        r@ == a@ + b@ + c@,
{
    let mut r = String::from_str(a);
    r.append(b);
    r.append(c);
    r
}

/// Whether two strings hold the same characters.
pub fn str_eq(a: &str, b: &str) -> (r: bool)
    ensures
        r == (a@ == b@),
{
    let x = String::from_str(a);
    let y = String::from_str(b);
    x == y
}

/// `None` for an empty answer, the answer itself otherwise.
pub fn optional(value: String) -> (r: Option<String>)
    ensures
        opt_view(r) == optional_spec(value@),
{
    if value.unicode_len() == 0 {
        None
    } else {
        Some(value)
    }
}

/// Splits `s` at the last occurrence of `sep`.
pub fn split_last(s: &str, sep: char) -> (r: Option<(String, String)>)
    ensures
        match r {
            Some((before, after)) => rsplit_once(s@, sep) == Some((before@, after@)),
            None => rsplit_once(s@, sep) is None,
        },
{
    let chars = chars_of(s);
    let mut all = String::new();
    let mut before = String::new();
    let mut after = String::new();
    let mut found = false;
    let mut i: usize = 0;
    while i < chars.len()
        invariant
            i <= chars.len(),
            chars@ == s@,
            all@ == s@.take(i as int),
            found ==> rsplit_once(s@.take(i as int), sep) == Some((before@, after@)),
            !found ==> rsplit_once(s@.take(i as int), sep) is None,
        decreases chars.len() - i,
    {
        let c = chars[i];
        assert(s@.take(i + 1).drop_last() =~= s@.take(i as int));
        if c == sep {
            before = all.clone();
            after = String::new();
            found = true;
        } else if found {
            push_char(&mut after, c);
        }
        push_char(&mut all, c);
        i = i + 1;
    }
    assert(s@.take(i as int) =~= s@);
    if found {
        Some((before, after))
    } else {
        None
    }
}

/// The pieces of `s` between occurrences of `sep`, as `str::split` gives them.
pub fn split_all(s: &str, sep: char) -> (r: Vec<String>)
    ensures
        views(r@) == split_seq(s@, sep),
{
    let chars = chars_of(s);
    let mut pieces: Vec<String> = Vec::new();
    let mut cur = String::new();
    let mut i: usize = 0;
    while i < chars.len()
        invariant
            i <= chars.len(),
            chars@ == s@,
            split_seq(s@.take(i as int), sep) == views(pieces@).push(cur@),
        decreases chars.len() - i,
    {
        let c = chars[i];
        assert(s@.take(i + 1).drop_last() =~= s@.take(i as int));
        let ghost old_pieces = pieces@;
        let ghost old_cur = cur@;
        if c == sep {
            let done = cur;
            pieces.push(done);
            cur = String::new();
            assert(views(pieces@) =~= views(old_pieces).push(done@));
        } else {
            push_char(&mut cur, c);
            assert(views(pieces@).push(cur@) =~= views(old_pieces).push(old_cur.push(c)));
        }
        i = i + 1;
    }
    assert(s@.take(i as int) =~= s@);
    let ghost old_pieces = pieces@;
    let last = cur;
    pieces.push(last);
    assert(views(pieces@) =~= views(old_pieces).push(last@));
    pieces
}

/// `s` followed by spaces up to `width` characters, as the format width `{: <w}` pads.
pub fn pad_right(s: &str, width: usize) -> (r: String)
    ensures
        r@ == pad_right_spec(s@, width as nat),
{
    let mut r = String::from_str(s);
    let mut n = s.unicode_len();
    while n < width
        invariant
            n >= s@.len(),
            n <= width ==> r@ == s@ + spaces((n - s@.len()) as nat),
            n > width ==> n == s@.len(),
            n == s@.len() ==> r@ == s@,
        decreases width - n,
    {
        push_char(&mut r, ' ');
        assert(s@ + spaces((n + 1 - s@.len()) as nat) =~= (s@ + spaces((n - s@.len()) as nat)).push(' '));
        n = n + 1;
    }
    r
}

/// Every piece that `split_seq` gives, joined again by the same separator, is
/// the text that was split.
pub proof fn lemma_split_join(s: Seq<char>, sep: char)
    ensures
        split_seq(s, sep).len() >= 1,
        join_seq(split_seq(s, sep), sep) == s,
    decreases s.len(),
{
    if s.len() > 0 {
        let t = s.drop_last();
        lemma_split_join(t, sep);
        let pieces = split_seq(t, sep);
        if s.last() == sep {
            let p2 = pieces.push(Seq::<char>::empty());
            assert(p2.drop_last() =~= pieces);
            assert(join_seq(p2, sep) =~= s);
        } else {
            let n = pieces.len();
            let p2 = pieces.update(n - 1, pieces.last().push(s.last()));
            if n == 1 {
                assert(join_seq(p2, sep) =~= s);
            } else {
                assert(p2.drop_last() =~= pieces.drop_last());
                assert(join_seq(p2, sep) =~= join_seq(pieces, sep).push(s.last()));
                assert(join_seq(p2, sep) =~= s);
            }
        }
    }
}

/// No piece that `split_seq` gives holds the separator.
pub proof fn lemma_split_pieces_free_of_sep(s: Seq<char>, sep: char)
    ensures
        forall|i: int|
            0 <= i < split_seq(s, sep).len() ==> !(#[trigger] split_seq(s, sep)[i]).contains(sep),
    decreases s.len(),
{
    if s.len() > 0 {
        let t = s.drop_last();
        lemma_split_pieces_free_of_sep(t, sep);
        lemma_split_join(t, sep);
        let pieces = split_seq(t, sep);
        if s.last() != sep {
            let n = pieces.len();
            let last2 = pieces.last().push(s.last());
            assert(!pieces[n - 1].contains(sep));
            assert forall|j: int| 0 <= j < last2.len() implies last2[j] != sep by {
                if j < last2.len() - 1 {
                    assert(last2[j] == pieces.last()[j]);
                }
            }
        } else {
            assert(!Seq::<char>::empty().contains(sep));
        }
    }
}

/// The text after the last separator holds no separator, and the text before
/// it, the separator and the text after it make up the whole.
pub proof fn lemma_rsplit_once(s: Seq<char>, sep: char)
    ensures
        match rsplit_once(s, sep) {
            Some((before, after)) => before.push(sep) + after == s && !after.contains(sep),
            None => !s.contains(sep),
        },
    decreases s.len(),
{
    if s.len() > 0 {
        let t = s.drop_last();
        lemma_rsplit_once(t, sep);
        if s.last() == sep {
            assert(t.push(sep) + Seq::<char>::empty() =~= s);
        } else {
            match rsplit_once(t, sep) {
                Some((before, after)) => {
                    assert(t.push(s.last()) =~= s);
                    assert((before.push(sep) + after).push(s.last()) =~= before.push(sep) + after.push(s.last()));
                    assert(before.push(sep) + after.push(s.last()) =~= s);
                    assert forall|j: int| 0 <= j < after.push(s.last()).len() implies after.push(s.last())[j] != sep by {
                        if j < after.len() {
                            assert(after.push(s.last())[j] == after[j]);
                        }
                    }
                },
                None => {
                    assert forall|j: int| 0 <= j < s.len() implies s[j] != sep by {
                        if j < t.len() {
                            assert(s[j] == t[j]);
                        }
                    }
                },
            }
        }
    }
}

/// Padding keeps the text in front and adds only spaces: the result is as
/// long as the text or the width, whichever is more.
pub proof fn lemma_pad_right(s: Seq<char>, width: nat)
    ensures
        pad_right_spec(s, width).len() == if s.len() >= width {
            s.len()
        } else {
            width
        },
        pad_right_spec(s, width).subrange(0, s.len() as int) == s,
        forall|i: int|
            s.len() <= i < pad_right_spec(s, width).len() ==> #[trigger] pad_right_spec(s, width)[i]
                == ' ',
{
    assert(pad_right_spec(s, width).subrange(0, s.len() as int) =~= s);
}

/// An answer means "no value" exactly when it is empty; otherwise it means
/// itself.
pub proof fn lemma_optional(value: Seq<char>)
    ensures
        optional_spec(value) is None <==> value.len() == 0,
        optional_spec(value) matches Some(v) ==> v == value,
{
}

/// The views of strings are the strings' views, one for one, in order.
pub proof fn lemma_views(v: Seq<String>)
    ensures
        views(v).len() == v.len(),
        forall|i: int| 0 <= i < v.len() ==> #[trigger] views(v)[i] == v[i]@,
{
}

/// The view of an optional string is absent exactly when the string is,
/// and is the string's view otherwise.
pub proof fn lemma_opt_view(o: Option<String>)
    ensures
        opt_view(o) is None <==> o is None,
        o matches Some(x) ==> opt_view(o) == Some(x@),
{
}

} // verus!

//! The configured credential list: `username:secret` pairs separated by commas.
use vstd::prelude::*;
use vstd::string::{StrSliceExecFns, StringExecFns};

verus! {

/// Separates the pairs of the list.
pub open spec fn pair_sep() -> char {
    ','
}

/// Separates a username from its secret.
pub open spec fn field_sep() -> char {
    ':'
}

/// The pieces of `s` between occurrences of `sep`, in order; empty text is
/// one empty piece.
pub open spec fn split_on(s: Seq<char>, sep: char) -> Seq<Seq<char>>
    decreases s.len(),
{
    if s.len() == 0 {
        seq![seq![]]
    } else {
        let p = split_on(s.drop_last(), sep);
        if s.last() == sep {
            p.push(seq![])
        } else {
            p.update(p.len() - 1, p.last().push(s.last()))
        }
    }
}

/// `i` is the first position of `sep` in `s`.
pub open spec fn is_first(s: Seq<char>, sep: char, i: int) -> bool {
    0 <= i < s.len() && s[i] == sep && forall|k: int| 0 <= k < i ==> #[trigger] s[k] != sep
}

/// A piece split at its first field separator, if it has one.
pub open spec fn credential_of(p: Seq<char>) -> Option<(Seq<char>, Seq<char>)> {
    if exists|i: int| is_first(p, field_sep(), i) {
        let i = choose|i: int| is_first(p, field_sep(), i);
        Some((p.take(i), p.skip(i + 1)))
    } else {
        None
    }
}

/// The credentials that the list names, or `None` when a piece has no field
/// separator.
pub open spec fn credentials_of(raw: Seq<char>) -> Option<Seq<(Seq<char>, Seq<char>)>> {
    let pieces = split_on(raw, pair_sep());
    if forall|k: int| 0 <= k < pieces.len() ==> (#[trigger] credential_of(pieces[k])) is Some {
        Some(pieces.map_values(|p: Seq<char>| credential_of(p)->Some_0))
    } else {
        None
    }
}

pub open spec fn pairs_view(v: Seq<(String, String)>) -> Seq<(Seq<char>, Seq<char>)> {
    v.map_values(|c: (String, String)| (c.0@, c.1@))
}

/// Splits one piece at its first field separator.
fn split_credential(piece: &str) -> (r: Option<(String, String)>)
    ensures
        match r {
            Some(c) => credential_of(piece@) == Some((c.0@, c.1@)),
            None => credential_of(piece@) is None,
        },
{
    let n = piece.unicode_len();
    let mut i: usize = 0;
    while i < n
        invariant
            n == piece@.len(),
            0 <= i <= n,
            forall|k: int| 0 <= k < i ==> #[trigger] piece@[k] != field_sep(),
        decreases n - i,
    {
        if piece.get_char(i) == ':' {
            let user = String::from_str(piece.substring_char(0, i));
            let secret = String::from_str(piece.substring_char(i + 1, n));
            proof {
                assert(is_first(piece@, field_sep(), i as int));
                let j = choose|j: int| is_first(piece@, field_sep(), j);
                if j < i {
                    assert(piece@[j] != field_sep());
                }
                if j > i {
                    assert(piece@[i as int] != field_sep());
                }
                assert(piece@.take(i as int) =~= piece@.subrange(0, i as int));
                assert(piece@.skip(i + 1) =~= piece@.subrange(i + 1, n as int));
            }
            return Some((user, secret));
        }
        i = i + 1;
    }
    None
}

/// The credentials of a configured list `user:secret,user:secret,...`, in
/// order; each pair splits at its first `:`. `None` when a pair has no `:`.
pub fn parse_credentials(raw: &str) -> (r: Option<Vec<(String, String)>>)
    ensures
        match r {
            Some(v) => credentials_of(raw@) == Some(pairs_view(v@)),
            None => credentials_of(raw@) is None,
        },
{
    let ghost s = raw@;
    let n = raw.unicode_len();
    let mut out: Vec<(String, String)> = Vec::new();
    let mut start: usize = 0;
    let mut i: usize = 0;
    let ghost mut done: Seq<Seq<char>> = seq![];
    assert(s.take(0) =~= seq![]);
    while i < n
        invariant
            n == s.len(),
            s == raw@,
            0 <= start <= i <= n,
            split_on(s.take(i as int), pair_sep()) == done.push(s.subrange(start as int, i as int)),
            forall|k: int| 0 <= k < done.len() ==> (#[trigger] credential_of(done[k])) is Some,
            pairs_view(out@) == done.map_values(|p: Seq<char>| credential_of(p)->Some_0),
        decreases n - i,
    {
        assert(s.take(i + 1).drop_last() =~= s.take(i as int));
        let c = raw.get_char(i);
        if c == ',' {
            let piece = raw.substring_char(start, i);
            match split_credential(piece) {
                Some(cred) => {
                    let ghost prev = out@;
                    out.push(cred);
                    proof {
                        let finished = s.subrange(start as int, i as int);
                        done = done.push(finished);
                        assert(pairs_view(out@) =~= pairs_view(prev).push((cred.0@, cred.1@)));
                        assert(pairs_view(out@) =~= done.map_values(|p: Seq<char>| credential_of(p)->Some_0));
                        assert(s.subrange(i + 1, i + 1) =~= Seq::<char>::empty());
                    }
                    start = i + 1;
                },
                None => {
                    proof {
                        let finished = s.subrange(start as int, i as int);
                        assert(split_on(s.take(i + 1), pair_sep()) == done.push(finished).push(
                            seq![],
                        ));
                        lemma_split_prefix_general(s, i as int + 1);
                        let pieces = split_on(s, pair_sep());
                        assert(done.push(finished).push(seq![])[done.len() as int] == finished);
                        assert(pieces[done.len() as int] == finished);
                        assert(credential_of(pieces[done.len() as int]) is None);
                    }
                    return None;
                },
            }
        } else {
            assert(s.subrange(start as int, i + 1) =~= s.subrange(start as int, i as int).push(c));
        }
        i = i + 1;
    }
    assert(s.take(n as int) =~= s);
    let last = raw.substring_char(start, n);
    let ghost pieces = split_on(s, pair_sep());
    assert(pieces == done.push(last@));
    match split_credential(last) {
        Some(cred) => {
            let ghost prev = out@;
            out.push(cred);
            proof {
                assert(pairs_view(out@) =~= pairs_view(prev).push((cred.0@, cred.1@)));
                assert(pieces.map_values(|p: Seq<char>| credential_of(p)->Some_0) =~= done.map_values(
                    |p: Seq<char>| credential_of(p)->Some_0,
                ).push(credential_of(last@)->Some_0));
                assert forall|k: int| 0 <= k < pieces.len() implies (#[trigger] credential_of(
                    pieces[k],
                )) is Some by {
                    if k < done.len() {
                        assert(pieces[k] == done[k]);
                    }
                }
            }
            Some(out)
        },
        None => {
            assert(credential_of(pieces[done.len() as int]) is None);
            None
        },
    }
}

/// Extending text by one character keeps all pieces but the last.
proof fn lemma_split_grow(s: Seq<char>, n: int)
    requires
        0 <= n < s.len(),
    ensures
        split_on(s.take(n + 1), pair_sep()).len() >= split_on(s.take(n), pair_sep()).len(),
        forall|k: int|
            0 <= k < split_on(s.take(n), pair_sep()).len() - 1 ==> #[trigger] split_on(
                s.take(n + 1),
                pair_sep(),
            )[k] == split_on(s.take(n), pair_sep())[k],
{
    assert(s.take(n + 1).drop_last() =~= s.take(n));
}

/// Pieces before the last piece of a prefix are pieces of the whole text.
proof fn lemma_split_prefix_general(s: Seq<char>, n: int)
    requires
        0 <= n <= s.len(),
    ensures
        split_on(s, pair_sep()).len() >= split_on(s.take(n), pair_sep()).len(),
        forall|k: int|
            0 <= k < split_on(s.take(n), pair_sep()).len() - 1 ==> #[trigger] split_on(
                s,
                pair_sep(),
            )[k] == split_on(s.take(n), pair_sep())[k],
    decreases s.len() - n,
{
    if n < s.len() {
        lemma_split_grow(s, n);
        lemma_split_prefix_general(s, n + 1);
    } else {
        assert(s.take(n) =~= s);
    }
}

} // verus!

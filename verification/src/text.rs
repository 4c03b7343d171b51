//! Splitting text at a separator, and the other questions about text that routing asks.

use vstd::prelude::*;
use vstd::string::*;

verus! {

/// The contents of a list of strings.
pub open spec fn texts(list: Seq<String>) -> Seq<Seq<char>> {
    list.map_values(|s: String| s@)
}

/// The contents of an optional string.
pub open spec fn optional_text(s: Option<String>) -> Option<Seq<char>> {
    match s {
        Some(s) => Some(s@),
        None => None,
    }
}

/// The pieces of `s` between the occurrences of `sep`: one more piece than there are separators,
/// so that the empty text has one empty piece.
pub open spec fn split_on(s: Seq<char>, sep: char) -> Seq<Seq<char>>
    decreases s.len(),
{
    if s.len() == 0 {
        seq![Seq::<char>::empty()]
    } else if s.last() == sep {
        split_on(s.drop_last(), sep).push(Seq::<char>::empty())
    } else {
        let before = split_on(s.drop_last(), sep);
        before.drop_last().push(before.last().push(s.last()))
    }
}

/// The pieces in order, with one `sep` between each two neighbours.
pub open spec fn join_with(pieces: Seq<Seq<char>>, sep: char) -> Seq<char>
    decreases pieces.len(),
{
    if pieces.len() == 0 {
        Seq::<char>::empty()
    } else if pieces.len() == 1 {
        pieces[0]
    } else {
        join_with(pieces.drop_last(), sep).push(sep) + pieces.last()
    }
}

/// Whether none of the pieces holds the separator.
pub open spec fn free_of(pieces: Seq<Seq<char>>, sep: char) -> bool {
    forall|i: int| 0 <= i < pieces.len() ==> !(#[trigger] pieces[i]).contains(sep)
}

/// Whether `s` begins with `prefix`.
pub open spec fn begins_with(s: Seq<char>, prefix: Seq<char>) -> bool {
    prefix.len() <= s.len() && s.take(prefix.len() as int) == prefix
}

/// Splitting always gives a piece, and no piece holds the separator.
pub proof fn law_split_is_free_of_separator(s: Seq<char>, sep: char)
    ensures
        split_on(s, sep).len() >= 1,
        free_of(split_on(s, sep), sep),
    decreases s.len(),
{
    if s.len() > 0 {
        law_split_is_free_of_separator(s.drop_last(), sep);
        let before = split_on(s.drop_last(), sep);
        let pieces = split_on(s, sep);
        assert forall|i: int| 0 <= i < pieces.len() implies !(#[trigger] pieces[i]).contains(
            sep,
        ) by {
            if i < before.len() - 1 {
                assert(pieces[i] == before[i]);
            } else if s.last() == sep {
                if i < before.len() {
                    assert(pieces[i] == before[i]);
                }
            } else {
                assert(pieces[i] == before.last().push(s.last()));
                assert(before.last() == before[before.len() - 1]);
                if pieces[i].contains(sep) {
                    let k = choose|k: int| 0 <= k < pieces[i].len() && pieces[i][k] == sep;
                    assert(k < before.last().len());
                    assert(before.last()[k] == sep);
                }
            }
        }
    }
}

/// Joining the pieces of a text gives the text back.
pub proof fn law_join_undoes_split(s: Seq<char>, sep: char)
    ensures
        join_with(split_on(s, sep), sep) == s,
    decreases s.len(),
{
    if s.len() > 0 {
        law_join_undoes_split(s.drop_last(), sep);
        law_split_is_free_of_separator(s.drop_last(), sep);
        let before = split_on(s.drop_last(), sep);
        let pieces = split_on(s, sep);
        if s.last() == sep {
            assert(pieces.drop_last() =~= before);
            assert(join_with(pieces, sep) =~= s);
        } else {
            assert(pieces.drop_last() =~= before.drop_last());
            if before.len() == 1 {
                assert(pieces[0] == s.drop_last().push(s.last()));
            }
            assert(s.drop_last().push(s.last()) =~= s);
            assert(join_with(pieces, sep) =~= s);
        }
    }
}

/// Splitting a text at its end: appending a separator-free piece extends the last piece only.
proof fn lemma_split_append_free(s: Seq<char>, t: Seq<char>, sep: char)
    requires
        !t.contains(sep),
    ensures
        split_on(s + t, sep) == split_on(s, sep).drop_last().push(split_on(s, sep).last() + t),
    decreases t.len(),
{
    law_split_is_free_of_separator(s, sep);
    let whole = split_on(s, sep);
    if t.len() == 0 {
        assert(s + t =~= s);
        assert(whole.last() + t =~= whole.last());
        assert(whole.drop_last().push(whole.last()) =~= whole);
    } else {
        let u = t.drop_last();
        assert(!u.contains(sep)) by {
            if u.contains(sep) {
                let k = choose|k: int| 0 <= k < u.len() && u[k] == sep;
                assert(t[k] == sep);
            }
        }
        lemma_split_append_free(s, u, sep);
        assert((s + t).drop_last() =~= s + u);
        assert((s + t).last() == t.last());
        assert(t.last() != sep) by {
            assert(t[t.len() - 1] == t.last());
        }
        let before = split_on(s + u, sep);
        assert(before.drop_last() =~= whole.drop_last());
        assert(before.last().push(t.last()) =~= whole.last() + t);
    }
}

/// Pieces that hold no separator come back when their join is split.
pub proof fn law_split_undoes_join(pieces: Seq<Seq<char>>, sep: char)
    requires
        pieces.len() >= 1,
        free_of(pieces, sep),
    ensures
        split_on(join_with(pieces, sep), sep) == pieces,
    decreases pieces.len(),
{
    if pieces.len() == 1 {
        lemma_split_append_free(Seq::<char>::empty(), pieces[0], sep);
        assert(Seq::<char>::empty() + pieces[0] =~= pieces[0]);
        assert(split_on(pieces[0], sep) =~= pieces);
    } else {
        let front = pieces.drop_last();
        assert(free_of(front, sep)) by {
            assert forall|i: int| 0 <= i < front.len() implies !(#[trigger] front[i]).contains(
                sep,
            ) by {
                assert(front[i] == pieces[i]);
            }
        }
        law_split_undoes_join(front, sep);
        let head = join_with(front, sep).push(sep);
        assert(head.drop_last() =~= join_with(front, sep));
        assert(split_on(head, sep) == front.push(Seq::<char>::empty()));
        assert(!pieces.last().contains(sep)) by {
            assert(pieces[pieces.len() - 1] == pieces.last());
        }
        lemma_split_append_free(head, pieces.last(), sep);
        assert(Seq::<char>::empty() + pieces.last() =~= pieces.last());
        assert(split_on(head, sep).drop_last() =~= front);
        assert(split_on(join_with(pieces, sep), sep) =~= pieces);
    }
}

/// Whether two texts are the same.
pub fn same_text(a: &str, b: &str) -> (same: bool)
    ensures
        same == (a@ == b@),
{
    let left = a.to_owned();
    let right = b.to_owned();
    left == right
}

/// Whether `s` begins with `prefix`.
pub fn starts_with(s: &str, prefix: &str) -> (yes: bool)
    ensures
        yes == begins_with(s@, prefix@),
{
    let n: usize = prefix.unicode_len();
    if s.unicode_len() < n {
        return false;
    }
    assert(s@.subrange(0, n as int) =~= s@.take(n as int));
    same_text(s.substring_char(0, n), prefix)
}

/// Whether `wanted` occurs in `s`.
pub fn contains_char(s: &str, wanted: char) -> (yes: bool)
    ensures
        yes == s@.contains(wanted),
{
    let n: usize = s.unicode_len();
    let mut i: usize = 0;
    while i < n
        invariant
            i <= n,
            n == s@.len(),
            forall|k: int| 0 <= k < i ==> s@[k] != wanted,
        decreases n - i,
    {
        if s.get_char(i) == wanted {
            assert(s@[i as int] == wanted);
            return true;
        }
        i = i + 1;
    }
    false
}

/// The pieces of `s` between the occurrences of `sep`.
pub fn split(s: &str, sep: char) -> (pieces: Vec<String>)
    ensures
        texts(pieces@) == split_on(s@, sep),
{
    let n: usize = s.unicode_len();
    let mut pieces: Vec<String> = Vec::new();
    let mut start: usize = 0;
    let mut i: usize = 0;
    assert(s@.take(0) =~= Seq::<char>::empty());
    assert(texts(pieces@).push(s@.subrange(0, 0)) =~= split_on(s@.take(0), sep));
    while i < n
        invariant
            start <= i <= n,
            n == s@.len(),
            texts(pieces@).push(s@.subrange(start as int, i as int)) == split_on(
                s@.take(i as int),
                sep,
            ),
        decreases n - i,
    {
        let ghost before = texts(pieces@).push(s@.subrange(start as int, i as int));
        let ghost longer = s@.take(i + 1);
        assert(longer.drop_last() =~= s@.take(i as int));
        if s.get_char(i) == sep {
            let ghost shorter = pieces@;
            let piece = s.substring_char(start, i).to_owned();
            pieces.push(piece);
            start = i + 1;
            assert(texts(pieces@) =~= texts(shorter).push(piece@));
            assert(s@.subrange(start as int, i + 1) =~= Seq::<char>::empty());
        } else {
            assert(before.drop_last() =~= texts(pieces@));
            assert(before.last().push(s@[i as int]) =~= s@.subrange(start as int, i + 1));
            assert(texts(pieces@).push(s@.subrange(start as int, i + 1)) =~= split_on(longer, sep));
        }
        i = i + 1;
    }
    let ghost shorter = pieces@;
    let piece = s.substring_char(start, n).to_owned();
    pieces.push(piece);
    assert(texts(pieces@) =~= texts(shorter).push(piece@));
    assert(s@.take(n as int) =~= s@);
    pieces
}

/// A text without the separator is its own only piece.
pub proof fn law_split_without_separator(s: Seq<char>, sep: char)
    requires
        forall|i: int| 0 <= i < s.len() ==> #[trigger] s[i] != sep,
    ensures
        split_on(s, sep) == seq![s],
{
    lemma_split_append_free(Seq::<char>::empty(), s, sep);
    assert(Seq::<char>::empty() + s =~= s);
    assert(split_on(s, sep) =~= seq![s]);
}

/// The pieces on the two sides of a separator are those of the text before it, and then those of
/// the text behind it.
pub proof fn law_split_at_separator(first: Seq<char>, second: Seq<char>, sep: char)
    ensures
        split_on(first.push(sep) + second, sep) == split_on(first, sep) + split_on(second, sep),
    decreases second.len(),
{
    let head = first.push(sep);
    let whole = head + second;
    if second.len() == 0 {
        assert(whole =~= head);
        assert(head.drop_last() =~= first);
        assert(split_on(whole, sep) =~= split_on(first, sep) + split_on(second, sep));
    } else {
        let shorter = second.drop_last();
        law_split_at_separator(first, shorter, sep);
        law_split_is_free_of_separator(shorter, sep);
        assert(whole.drop_last() =~= head + shorter);
        assert(whole.last() == second.last());
        assert(split_on(whole, sep) =~= split_on(first, sep) + split_on(second, sep));
    }
}

/// A text begins with a prefix exactly where it is the prefix with something behind it.
pub proof fn law_begins_with(s: Seq<char>, prefix: Seq<char>)
    ensures
        begins_with(s, prefix) == exists|rest: Seq<char>| s == #[trigger] (prefix + rest),
{
    if begins_with(s, prefix) {
        assert(s =~= prefix + s.skip(prefix.len() as int));
    }
    if exists|rest: Seq<char>| s == #[trigger] (prefix + rest) {
        let rest = choose|rest: Seq<char>| s == #[trigger] (prefix + rest);
        assert(s.take(prefix.len() as int) =~= prefix);
    }
}

/// The contents of a list of strings are the texts of its strings, each in its place, and those of
/// an optional string the text of that string.
pub proof fn law_contents_of_strings(list: Seq<String>, s: String)
    ensures
        texts(list).len() == list.len(),
        forall|i: int| 0 <= i < list.len() ==> #[trigger] texts(list)[i] == list[i]@,
        optional_text(Some(s)) == Some(s@),
        optional_text(None) == None::<Seq<char>>,
{
}

} // verus!

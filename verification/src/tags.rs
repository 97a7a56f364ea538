//! The tag column of a stored row: a list of tags written as one text, the tags
//! separated by single spaces, and read back by cutting the text at its spaces.

use vstd::prelude::*;
use vstd::string::*;

verus! {

/// The text of a tag column: the tags in order, with one space between neighbours.
/// An empty list gives the empty text.
pub open spec fn joined(tags: Seq<Seq<char>>) -> Seq<char>
    decreases tags.len(),
{
    if tags.len() == 0 {
        Seq::empty()
    } else if tags.len() == 1 {
        tags[0]
    } else {
        joined(tags.drop_last()) + seq![' '] + tags.last()
    }
}

/// The pieces of `s` that lie between its spaces, in order. There is always one piece
/// more than there are spaces, so the empty text has the one empty piece.
pub open spec fn pieces(s: Seq<char>) -> Seq<Seq<char>>
    decreases s.len(),
{
    if s.len() == 0 {
        seq![Seq::empty()]
    } else {
        let before = pieces(s.drop_last());
        if s.last() == ' ' {
            before.push(Seq::empty())
        } else {
            before.update(before.len() - 1, before.last().push(s.last()))
        }
    }
}

/// The texts of a list of strings.
pub open spec fn texts(v: Seq<String>) -> Seq<Seq<char>> {
    Seq::new(v.len(), |i: int| v[i]@)
}

/// Every text has at least one piece.
pub proof fn lemma_pieces_nonempty(s: Seq<char>)
    ensures
        pieces(s).len() >= 1,
    decreases s.len(),
{
    if s.len() > 0 {
        lemma_pieces_nonempty(s.drop_last());
    }
}

/// No tag of the list holds a space.
pub open spec fn space_free(tags: Seq<Seq<char>>) -> bool {
    forall|i: int| 0 <= i < tags.len() ==> !(#[trigger] tags[i]).contains(' ')
}

/// Appending text without a space to `a` lengthens the last piece of `a` and changes
/// no other.
pub proof fn lemma_pieces_append(a: Seq<char>, b: Seq<char>)
    requires
        !b.contains(' '),
    ensures
        pieces(a).len() >= 1,
        pieces(a + b) == pieces(a).update(pieces(a).len() - 1, pieces(a).last() + b),
    decreases b.len(),
{
    lemma_pieces_nonempty(a);
    let p = pieces(a);
    if b.len() == 0 {
        assert(a + b == a);
        assert(p.last() + b == p.last());
        assert(p.update(p.len() - 1, p.last()) == p);
    } else {
        let b0 = b.drop_last();
        assert(b.contains(b.last()));
        assert forall|c: char| b0.contains(c) implies b.contains(c) by {
            let k = choose|k: int| 0 <= k < b0.len() && b0[k] == c;
            assert(b[k] == c);
        }
        lemma_pieces_append(a, b0);
        assert((a + b).drop_last() == a + b0);
        assert((a + b).last() == b.last());
        assert((p.last() + b0).push(b.last()) == p.last() + b);
        assert(p.update(p.len() - 1, p.last() + b0).update(p.len() - 1, p.last() + b)
            == p.update(p.len() - 1, p.last() + b));
    }
}

/// Joining the pieces of a text gives the text back.
pub proof fn lemma_join_of_pieces(s: Seq<char>)
    ensures
        joined(pieces(s)) == s,
    decreases s.len(),
{
    if s.len() == 0 {
        assert(joined(seq![Seq::<char>::empty()]) == Seq::<char>::empty());
    } else {
        let s0 = s.drop_last();
        let p = pieces(s0);
        lemma_pieces_nonempty(s0);
        lemma_join_of_pieces(s0);
        if s.last() == ' ' {
            let q = p.push(Seq::<char>::empty());
            assert(q.drop_last() == p);
            assert(joined(q) == joined(p) + seq![' '] + Seq::<char>::empty());
            assert(s0 + seq![' '] + Seq::<char>::empty() == s);
        } else {
            let q = p.update(p.len() - 1, p.last().push(s.last()));
            if p.len() == 1 {
                assert(joined(q) == p[0].push(s.last()));
                assert(s0.push(s.last()) == s);
            } else {
                assert(q.drop_last() == p.drop_last());
                assert(joined(q) == joined(p.drop_last()) + seq![' '] + p.last().push(s.last()));
                assert(joined(p.drop_last()) + seq![' '] + p.last().push(s.last()) == (joined(
                    p.drop_last(),
                ) + seq![' '] + p.last()).push(s.last()));
                assert(s0.push(s.last()) == s);
            }
        }
    }
}

/// No piece of a text holds a space.
pub proof fn lemma_pieces_space_free(s: Seq<char>)
    ensures
        space_free(pieces(s)),
    decreases s.len(),
{
    if s.len() == 0 {
        assert(!Seq::<char>::empty().contains(' '));
    } else {
        let p = pieces(s.drop_last());
        lemma_pieces_nonempty(s.drop_last());
        lemma_pieces_space_free(s.drop_last());
        if s.last() == ' ' {
            assert(!Seq::<char>::empty().contains(' '));
        } else {
            let grown = p.last().push(s.last());
            assert(!grown.contains(' ')) by {
                if grown.contains(' ') {
                    let k = choose|k: int| 0 <= k < grown.len() && grown[k] == ' ';
                    assert(p.last()[k] == ' ');
                    assert(p.last().contains(' '));
                }
            }
        }
    }
}

/// A list of at least one tag, none of which holds a space, is read back from its
/// column as it was written.
pub proof fn lemma_pieces_of_joined(tags: Seq<Seq<char>>)
    requires
        tags.len() >= 1,
        space_free(tags),
    ensures
        pieces(joined(tags)) == tags,
    decreases tags.len(),
{
    let nothing = Seq::<char>::empty();
    if tags.len() == 1 {
        lemma_pieces_append(nothing, tags[0]);
        assert(nothing + tags[0] == tags[0]);
        assert(pieces(nothing) == seq![nothing]);
        assert(seq![nothing].update(0, nothing + tags[0]) == tags);
    } else {
        let init = tags.drop_last();
        let head = joined(init) + seq![' '];
        lemma_pieces_of_joined(init);
        assert(head.drop_last() == joined(init));
        assert(pieces(head) == init.push(nothing));
        lemma_pieces_append(head, tags.last());
        assert(nothing + tags.last() == tags.last());
        assert(init.push(nothing).update(init.len() as int, tags.last()) == tags);
    }
}

/// Writes the tags as one text, separated by single spaces.
pub fn join_tags(tags: &Vec<String>) -> (out: String)
    ensures
        out@ == joined(texts(tags@)),
{
    let mut out = String::new();
    let mut i: usize = 0;
    while i < tags.len()
        invariant
            i <= tags.len(),
            out@ == joined(texts(tags@).take(i as int)),
        decreases tags.len() - i,
    {
        proof {
            let upto = texts(tags@).take(i + 1);
            assert(upto.drop_last() == texts(tags@).take(i as int));
            assert(upto.last() == tags@[i as int]@);
        }
        if i > 0 {
            out.append(" ");
            proof {
                reveal_strlit(" ");
                assert(" "@ == seq![' ']);
            }
        }
        out.append(tags[i].as_str());
        i = i + 1;
    }
    assert(texts(tags@).take(tags.len() as int) == texts(tags@));
    out
}

/// Cuts a tag column at its spaces.
pub fn split_tags(s: &str) -> (out: Vec<String>)
    ensures
        texts(out@) == pieces(s@),
{
    broadcast use vstd::string::group_string_axioms;
    let total = s.unicode_len();
    let mut out: Vec<String> = Vec::new();
    let mut start: usize = 0;
    let mut pos: usize = 0;
    proof {
        assert(s@.subrange(0, 0) == Seq::<char>::empty());
        assert(pieces(s@.take(0)) == seq![Seq::<char>::empty()]);
        assert(texts(out@).push(Seq::<char>::empty()) == seq![Seq::<char>::empty()]);
    }
    for c in it: s.chars()
        invariant
            it.seq() == s@,
            total == s@.len(),
            pos == it.index(),
            start <= pos,
            texts(out@).push(s@.subrange(start as int, pos as int)) == pieces(s@.take(pos as int)),
    {
        let ghost done = texts(out@);
        let ghost open = s@.subrange(start as int, pos as int);
        assert(s@.take(pos + 1).drop_last() == s@.take(pos as int));
        assert(s@.take(pos + 1).last() == c);
        if c == ' ' {
            let piece = s.substring_char(start, pos).to_owned();
            out.push(piece);
            start = pos + 1;
            assert(texts(out@) == done.push(open));
            assert(s@.subrange(pos + 1, pos + 1) == Seq::<char>::empty());
        } else {
            assert(s@.subrange(start as int, pos + 1) == open.push(c));
            assert(done.push(open).update(done.len() as int, open.push(c)) == done.push(
                open.push(c),
            ));
        }
        pos = pos + 1;
    }
    let ghost done = texts(out@);
    let last = s.substring_char(start, pos).to_owned();
    out.push(last);
    assert(texts(out@) == done.push(s@.subrange(start as int, pos as int)));
    assert(s@.take(s@.len() as int) == s@);
    out
}

} // verus!

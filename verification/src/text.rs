//! Sequences of characters: splitting, joining and searching, each stated as
//! a spec function on `Seq<char>` and computed by a function on `&str`.

use vstd::prelude::*;

verus! {

/// The pieces of `s` between the occurrences of `sep`. There is always one
/// piece more than there are separators, so the empty sequence has one empty
/// piece and a trailing separator is followed by an empty piece.
pub open spec fn split_on(s: Seq<char>, sep: char) -> Seq<Seq<char>>
    decreases s.len(),
{
    if s.len() == 0 {
        seq![Seq::<char>::empty()]
    } else {
        let before = split_on(s.drop_last(), sep);
        if s.last() == sep {
            before.push(Seq::<char>::empty())
        } else {
            before.drop_last().push(before.last().push(s.last()))
        }
    }
}

/// The pieces of `parts` written one after the other with `sep` between
/// each two neighbours.
pub open spec fn joined(parts: Seq<Seq<char>>, sep: Seq<char>) -> Seq<char>
    decreases parts.len(),
{
    if parts.len() == 0 {
        Seq::<char>::empty()
    } else if parts.len() == 1 {
        parts[0]
    } else {
        joined(parts.drop_last(), sep) + sep + parts.last()
    }
}

/// `pat` stands in `s` at position `at`.
pub open spec fn occurs_at(s: Seq<char>, at: int, pat: Seq<char>) -> bool {
    0 <= at && at + pat.len() <= s.len() && s.subrange(at, at + pat.len()) == pat
}

/// `pat` stands somewhere in `s`.
pub open spec fn occurs_in(s: Seq<char>, pat: Seq<char>) -> bool {
    exists|at: int| occurs_at(s, at, pat)
}

/// Splitting yields at least one piece.
pub proof fn lemma_split_has_a_piece(s: Seq<char>, sep: char)
    ensures
        split_on(s, sep).len() >= 1,
    decreases s.len(),
{
    if s.len() > 0 {
        lemma_split_has_a_piece(s.drop_last(), sep);
    }
}

/// No piece of a split holds the separator.
pub proof fn lemma_split_pieces_are_whole(s: Seq<char>, sep: char)
    ensures
        forall|i: int, j: int|
            0 <= i < split_on(s, sep).len() && 0 <= j < split_on(s, sep)[i].len()
                ==> split_on(s, sep)[i][j] != sep,
    decreases s.len(),
{
    if s.len() > 0 {
        lemma_split_has_a_piece(s.drop_last(), sep);
        lemma_split_pieces_are_whole(s.drop_last(), sep);
    }
}

/// Joining the pieces of a split with the separator gives the sequence back.
pub proof fn lemma_join_of_split(s: Seq<char>, sep: char)
    ensures
        joined(split_on(s, sep), seq![sep]) == s,
    decreases s.len(),
{
    let glue = seq![sep];
    if s.len() == 0 {
        assert(joined(split_on(s, sep), glue) =~= s);
    } else {
        let head = s.drop_last();
        let before = split_on(head, sep);
        lemma_split_has_a_piece(head, sep);
        lemma_join_of_split(head, sep);
        if s.last() == sep {
            let after = before.push(Seq::<char>::empty());
            assert(after.drop_last() =~= before);
            assert(joined(after, glue) =~= joined(before, glue) + glue + Seq::<char>::empty());
            assert(head + glue =~= s);
        } else {
            let grown = before.last().push(s.last());
            let after = before.drop_last().push(grown);
            if before.len() == 1 {
                assert(joined(before, glue) == before[0]);
                assert(after =~= seq![grown]);
                assert(joined(after, glue) == grown);
                assert(grown =~= s);
            } else {
                assert(after.drop_last() =~= before.drop_last());
                assert(joined(after, glue) == joined(before.drop_last(), glue) + glue + grown);
                assert(joined(before, glue) == joined(before.drop_last(), glue) + glue
                    + before.last());
                assert(joined(after, glue) =~= joined(before, glue).push(s.last()));
                assert(head.push(s.last()) =~= s);
            }
        }
    }
}

/// A sequence without the separator is its own single piece.
pub proof fn lemma_split_without_separator(s: Seq<char>, sep: char)
    requires
        forall|i: int| 0 <= i < s.len() ==> s[i] != sep,
    ensures
        split_on(s, sep) == seq![s],
    decreases s.len(),
{
    if s.len() == 0 {
        assert(s =~= Seq::<char>::empty());
    } else {
        let head = s.drop_last();
        assert forall|i: int| 0 <= i < head.len() implies head[i] != sep by {
            assert(head[i] == s[i]);
        }
        lemma_split_without_separator(head, sep);
        let before = split_on(head, sep);
        assert(before.drop_last() =~= Seq::<Seq<char>>::empty());
        assert(before.last() == head);
        assert(head.push(s.last()) =~= s);
        assert(s.last() == s[s.len() - 1]);
        assert(split_on(s, sep) =~= seq![s]);
    }
}

/// The pieces of two sequences with a separator between them are the pieces
/// of the first followed by the pieces of the second.
pub proof fn lemma_split_across_separator(a: Seq<char>, b: Seq<char>, sep: char)
    ensures
        split_on(a + seq![sep] + b, sep) == split_on(a, sep) + split_on(b, sep),
    decreases b.len(),
{
    let whole = a + seq![sep] + b;
    if b.len() == 0 {
        assert(whole.drop_last() =~= a);
        assert(split_on(whole, sep) =~= split_on(a, sep) + split_on(b, sep));
    } else {
        let shorter = b.drop_last();
        lemma_split_across_separator(a, shorter, sep);
        lemma_split_has_a_piece(shorter, sep);
        assert(whole.drop_last() =~= a + seq![sep] + shorter);
        assert(whole.last() == b.last());
        let left = split_on(a, sep);
        let right = split_on(shorter, sep);
        if b.last() == sep {
            assert((left + right).push(Seq::<char>::empty()) =~= left + right.push(
                Seq::<char>::empty(),
            ));
        } else {
            assert((left + right).last() == right.last());
            assert((left + right).drop_last() =~= left + right.drop_last());
            assert((left + right.drop_last()).push(right.last().push(b.last())) =~= left
                + right.drop_last().push(right.last().push(b.last())));
        }
    }
}

/// The views of a vector of string slices, in order.
pub open spec fn views(parts: Seq<&str>) -> Seq<Seq<char>> {
    Seq::new(parts.len(), |i: int| parts[i]@)
}

/// The characters of `s`, one element each.
pub fn chars_of(s: &str) -> (chars: Vec<char>)
    ensures
        chars@ == s@,
{
    broadcast use vstd::string::group_string_axioms;

    let mut chars: Vec<char> = Vec::new();
    for c in it: s.chars()
        invariant
            it.seq() == s@,
            chars@ == s@.take(it.index()),
    {
        chars.push(c);
    }
    chars
}

/// Whether `pat` stands in `s` at position `at`.
pub fn matches_at(s: &Vec<char>, at: usize, pat: &Vec<char>) -> (found: bool)
    ensures
        found == occurs_at(s@, at as int, pat@),
{
    if pat.len() > s.len() || at > s.len() - pat.len() {
        return false;
    }
    let mut k: usize = 0;
    while k < pat.len()
        invariant
            at + pat.len() <= s.len(),
            k <= pat.len(),
            forall|j: int| 0 <= j < k ==> s@[at + j] == pat@[j],
        decreases pat.len() - k,
    {
        if s[at + k] != pat[k] {
            assert(s@.subrange(at as int, at + pat.len())[k as int] != pat@[k as int]);
            return false;
        }
        k += 1;
    }
    assert(s@.subrange(at as int, at + pat.len()) =~= pat@);
    true
}

/// Whether `s` begins with `prefix`.
pub fn starts_with(s: &str, prefix: &str) -> (found: bool)
    ensures
        found == prefix@.is_prefix_of(s@),
{
    let chars = chars_of(s);
    let pat = chars_of(prefix);
    matches_at(&chars, 0, &pat)
}

/// Whether `s` ends with `suffix`.
pub fn ends_with(s: &str, suffix: &str) -> (found: bool)
    ensures
        found == suffix@.is_suffix_of(s@),
{
    let chars = chars_of(s);
    let pat = chars_of(suffix);
    if pat.len() > chars.len() {
        return false;
    }
    matches_at(&chars, chars.len() - pat.len(), &pat)
}

/// Whether `pat` stands somewhere in `s`.
pub fn contains(s: &str, pat: &str) -> (found: bool)
    ensures
        found == occurs_in(s@, pat@),
{
    let chars = chars_of(s);
    let needle = chars_of(pat);
    if needle.len() > chars.len() {
        return false;
    }
    let last: usize = chars.len() - needle.len();
    let mut at: usize = 0;
    while at < last
        invariant
            last == chars.len() - needle.len(),
            at <= last,
            chars@ == s@,
            needle@ == pat@,
            forall|j: int| 0 <= j < at ==> !occurs_at(s@, j, pat@),
        decreases last - at,
    {
        if matches_at(&chars, at, &needle) {
            return true;
        }
        at += 1;
    }
    matches_at(&chars, last, &needle)
}

/// The pieces of `s` between the occurrences of `sep`, borrowed from `s`.
pub fn split<'a>(s: &'a str, sep: char) -> (parts: Vec<&'a str>)
    ensures
        views(parts@) == split_on(s@, sep),
{
    let chars = chars_of(s);
    let mut parts: Vec<&'a str> = Vec::new();
    let mut start: usize = 0;
    let mut i: usize = 0;
    assert(s@.take(0) =~= Seq::<char>::empty());
    assert(views(parts@).push(s@.subrange(0, 0)) =~= split_on(s@.take(0), sep));
    while i < chars.len()
        invariant
            chars@ == s@,
            start <= i <= chars.len(),
            views(parts@).push(s@.subrange(start as int, i as int)) == split_on(
                s@.take(i as int),
                sep,
            ),
        decreases chars.len() - i,
    {
        let ghost before = views(parts@).push(s@.subrange(start as int, i as int));
        let ghost head = s@.take(i + 1);
        assert(head.drop_last() =~= s@.take(i as int));
        assert(head.last() == s@[i as int]);
        if chars[i] == sep {
            let piece = s.substring_char(start, i);
            parts.push(piece);
            start = i + 1;
            assert(views(parts@) =~= before);
            assert(s@.subrange(start as int, start as int) =~= Seq::<char>::empty());
        } else {
            assert(before.drop_last() =~= views(parts@));
            assert(before.last().push(s@[i as int]) =~= s@.subrange(start as int, i + 1));
        }
        i += 1;
    }
    let ghost before = views(parts@).push(s@.subrange(start as int, i as int));
    let piece = s.substring_char(start, i);
    parts.push(piece);
    assert(views(parts@) =~= before);
    assert(s@.take(i as int) =~= s@);
    parts
}

/// The pieces `parts[from..to]` joined with `sep` between neighbours.
pub fn join(parts: &Vec<&str>, from: usize, to: usize, sep: &str) -> (text: String)
    requires
        from <= to <= parts.len(),
    ensures
        text@ == joined(views(parts@).subrange(from as int, to as int), sep@),
{
    let mut text = String::new();
    let mut i: usize = from;
    let ghost all = views(parts@);
    assert(all.subrange(from as int, from as int) =~= Seq::<Seq<char>>::empty());
    while i < to
        invariant
            from <= i <= to <= parts.len(),
            all == views(parts@),
            text@ == joined(all.subrange(from as int, i as int), sep@),
        decreases to - i,
    {
        let ghost done = all.subrange(from as int, i as int);
        let ghost next = all.subrange(from as int, i + 1);
        assert(next.drop_last() =~= done);
        assert(next.last() == parts@[i as int]@);
        if i > from {
            text.append(sep);
        } else {
            assert(next =~= seq![parts@[i as int]@]);
            assert(text@ + parts@[i as int]@ =~= parts@[i as int]@);
        }
        text.append(parts[i]);
        assert(text@ =~= joined(next, sep@));
        i += 1;
    }
    text
}

/// Whether `a` and `b` hold the same characters.
pub fn same(a: &str, b: &str) -> (equal: bool)
    ensures
        equal == (a@ == b@),
{
    let x = chars_of(a);
    let y = chars_of(b);
    if x.len() != y.len() {
        return false;
    }
    let found = matches_at(&x, 0, &y);
    assert(x@.subrange(0, y@.len() as int) =~= x@);
    found
}

/// The pieces of `parts` from position `from` on.
pub fn rest_of<'a>(parts: &Vec<&'a str>, from: usize) -> (rest: Vec<&'a str>)
    requires
        from <= parts.len(),
    ensures
        views(rest@) == views(parts@).skip(from as int),
{
    let mut rest: Vec<&'a str> = Vec::new();
    let mut i: usize = from;
    while i < parts.len()
        invariant
            from <= i <= parts.len(),
            views(rest@) == views(parts@).subrange(from as int, i as int),
        decreases parts.len() - i,
    {
        let ghost before = views(rest@);
        rest.push(parts[i]);
        assert(views(rest@) =~= before.push(parts@[i as int]@));
        assert(before.push(parts@[i as int]@) =~= views(parts@).subrange(from as int, i + 1));
        i += 1;
    }
    assert(views(parts@).subrange(from as int, parts.len() as int) =~= views(parts@).skip(
        from as int,
    ));
    rest
}

/// `a` followed by `b`.
pub fn appended(a: &str, b: &str) -> (text: String)
    ensures
        text@ == a@ + b@,
{
    let mut text = a.to_owned();
    text.append(b);
    text
}

} // verus!

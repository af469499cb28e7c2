//! The forced-protocol prefix: a source may begin with `name+`, which names
//! the getter to use whatever scheme the rest of the source carries.

use vstd::prelude::*;
use crate::text::chars_of;

verus! {

/// The characters a forced-protocol name is made of: ASCII letters and
/// digits.
pub open spec fn is_token_char(c: char) -> bool {
    ('a' <= c && c <= 'z') || ('A' <= c && c <= 'Z') || ('0' <= c && c <= '9')
}

/// No character of `s` is a line feed.
pub open spec fn no_line_feed(s: Seq<char>) -> bool {
    forall|i: int| 0 <= i < s.len() ==> s[i] != '\n'
}

/// The grammar of a forced source: `s` is `token`, a plus sign and `rest`,
/// where `token` is one or more letters and digits and `rest` runs to the end
/// of `s` without a line feed.
pub open spec fn is_forced(s: Seq<char>, token: Seq<char>, rest: Seq<char>) -> bool {
    &&& s == token + seq!['+'] + rest
    &&& token.len() > 0
    &&& forall|i: int| 0 <= i < token.len() ==> is_token_char(token[i])
    &&& no_line_feed(rest)
}

/// The length of the longest prefix of `s` made of letters and digits.
pub open spec fn token_len(s: Seq<char>) -> nat
    decreases s.len(),
{
    if s.len() > 0 && is_token_char(s[0]) {
        1 + token_len(s.drop_first())
    } else {
        0
    }
}

/// The forced-protocol name of `s`, if it has one, and what is left of `s`
/// without it; `s` itself where it has none.
pub open spec fn forced_split(s: Seq<char>) -> (Option<Seq<char>>, Seq<char>) {
    let n = token_len(s) as int;
    if 0 < n < s.len() && s[n] == '+' && no_line_feed(s.skip(n + 1)) {
        (Some(s.take(n)), s.skip(n + 1))
    } else {
        (None, s)
    }
}

/// The forced-protocol name of `s`, if it has one.
pub open spec fn forced_token(s: Seq<char>) -> Option<Seq<char>> {
    forced_split(s).0
}

/// What is left of `s` without its forced-protocol name.
pub open spec fn unforced(s: Seq<char>) -> Seq<char> {
    forced_split(s).1
}

/// A prefix of letters and digits that ends at the end of `s`, or before a
/// character of another kind, is the longest one.
pub proof fn lemma_token_len(s: Seq<char>, n: int)
    requires
        0 <= n <= s.len(),
        forall|i: int| 0 <= i < n ==> is_token_char(s[i]),
        n == s.len() || !is_token_char(s[n]),
    ensures
        token_len(s) == n,
    decreases n,
{
    if n > 0 {
        lemma_token_len(s.drop_first(), n - 1);
    }
}

/// The longest prefix of letters and digits is one, and it is the longest.
pub proof fn lemma_token_len_bounds(s: Seq<char>)
    ensures
        token_len(s) <= s.len(),
        forall|i: int| 0 <= i < token_len(s) ==> is_token_char(s[i]),
        token_len(s) < s.len() ==> !is_token_char(s[token_len(s) as int]),
    decreases s.len(),
{
    if s.len() > 0 && is_token_char(s[0]) {
        let tail = s.drop_first();
        lemma_token_len_bounds(tail);
        assert forall|i: int| 0 <= i < token_len(s) implies is_token_char(s[i]) by {
            if i > 0 {
                assert(s[i] == tail[i - 1]);
            }
        }
        if token_len(s) < s.len() {
            assert(s[token_len(s) as int] == tail[token_len(tail) as int]);
        }
    }
}

/// Where [`forced_split`] finds a name, the source is built by the grammar
/// from that name and the remainder.
pub proof fn lemma_forced_split_is_forced(s: Seq<char>)
    requires
        forced_token(s) is Some,
    ensures
        is_forced(s, forced_token(s)->0, unforced(s)),
{
    lemma_token_len_bounds(s);
    let n = token_len(s) as int;
    assert(s =~= s.take(n) + seq!['+'] + s.skip(n + 1));
}

/// A source built by the grammar from a name and a remainder splits into
/// exactly these two: the grammar reads a source in at most one way.
pub proof fn lemma_forced_is_split(s: Seq<char>, token: Seq<char>, rest: Seq<char>)
    requires
        is_forced(s, token, rest),
    ensures
        forced_split(s) == (Some(token), rest),
{
    let n = token.len() as int;
    assert(s[n] == '+');
    assert forall|i: int| 0 <= i < n implies is_token_char(s[i]) by {
        assert(s[i] == token[i]);
    }
    lemma_token_len(s, n);
    assert(s.take(n) =~= token);
    assert(s.skip(n + 1) =~= rest);
}

/// A source without a forced-protocol name is left whole, and the grammar
/// reads it in no way.
pub proof fn lemma_unforced_is_whole(s: Seq<char>)
    requires
        forced_token(s) is None,
    ensures
        unforced(s) == s,
        forall|token: Seq<char>, rest: Seq<char>| !is_forced(s, token, rest),
{
    assert forall|token: Seq<char>, rest: Seq<char>| !is_forced(s, token, rest) by {
        if is_forced(s, token, rest) {
            lemma_forced_is_split(s, token, rest);
        }
    }
}

/// Whether `c` is an ASCII letter or digit.
pub fn token_char(c: char) -> (yes: bool)
    ensures
        yes == is_token_char(c),
{
    ('a' <= c && c <= 'z') || ('A' <= c && c <= 'Z') || ('0' <= c && c <= '9')
}

/// Splits an optional forced-protocol name from `v`: the name and the
/// remainder where `v` is a name of letters and digits, a plus sign and a
/// remainder without a line feed; nothing and `v` itself otherwise.
pub fn get_forced_proto<'a>(v: &'a str) -> (r: (Option<&'a str>, &'a str))
    ensures
        match r.0 {
            Some(token) => forced_split(v@) == (Some(token@), r.1@),
            None => forced_split(v@) == (None::<Seq<char>>, r.1@),
        },
{
    let chars = chars_of(v);
    let len: usize = chars.len();
    let mut n: usize = 0;
    while n < len && token_char(chars[n])
        invariant
            len == chars.len(),
            n <= len,
            forall|i: int| 0 <= i < n ==> is_token_char(chars@[i]),
        decreases len - n,
    {
        n += 1;
    }
    proof {
        lemma_token_len(v@, n as int);
    }
    if n == 0 || n == len || chars[n] != '+' {
        return (None, v);
    }
    let mut k: usize = n + 1;
    while k < len
        invariant
            len == chars.len(),
            chars@ == v@,
            token_len(v@) == n,
            n + 1 <= k <= len,
            forall|i: int| n + 1 <= i < k ==> chars@[i] != '\n',
        decreases len - k,
    {
        if chars[k] == '\n' {
            assert(v@.skip(n + 1)[k - (n + 1)] == '\n');
            return (None, v);
        }
        k += 1;
    }
    assert(no_line_feed(v@.skip(n + 1)));
    let token = v.substring_char(0, n);
    let rest = v.substring_char(n + 1, len);
    assert(v@.subrange(0, n as int) =~= v@.take(n as int));
    assert(v@.subrange(n + 1, len as int) =~= v@.skip(n + 1));
    (Some(token), rest)
}

} // verus!

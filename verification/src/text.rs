//! Verified character-level text utilities: white-space classification,
//! conversion between `&str` and `Vec<char>`, and string equality.

use vstd::prelude::*;

verus! {

/// The characters with the Unicode `White_Space` property, the set that
/// `char::is_whitespace` recognizes.
pub open spec fn is_ws(c: char) -> bool {
    c == '\u{09}' || c == '\u{0A}' || c == '\u{0B}' || c == '\u{0C}' || c == '\u{0D}'
        || c == ' ' || c == '\u{85}' || c == '\u{A0}' || c == '\u{1680}' || c == '\u{2000}'
        || c == '\u{2001}' || c == '\u{2002}' || c == '\u{2003}' || c == '\u{2004}'
        || c == '\u{2005}' || c == '\u{2006}' || c == '\u{2007}' || c == '\u{2008}'
        || c == '\u{2009}' || c == '\u{200A}' || c == '\u{2028}' || c == '\u{2029}'
        || c == '\u{202F}' || c == '\u{205F}' || c == '\u{3000}'
}

/// Decides `is_ws`.
pub fn is_ws_char(c: char) -> (r: bool)
    ensures
        r == is_ws(c),
{
    c == '\u{09}' || c == '\u{0A}' || c == '\u{0B}' || c == '\u{0C}' || c == '\u{0D}'
        || c == ' ' || c == '\u{85}' || c == '\u{A0}' || c == '\u{1680}' || c == '\u{2000}'
        || c == '\u{2001}' || c == '\u{2002}' || c == '\u{2003}' || c == '\u{2004}'
        || c == '\u{2005}' || c == '\u{2006}' || c == '\u{2007}' || c == '\u{2008}'
        || c == '\u{2009}' || c == '\u{200A}' || c == '\u{2028}' || c == '\u{2029}'
        || c == '\u{202F}' || c == '\u{205F}' || c == '\u{3000}'
}

/// Relies on `String::push`: appends the given character to the end of
/// the string.
pub assume_specification[ String::push ](s: &mut String, ch: char)
    ensures
        final(s)@ == old(s)@.push(ch),
;

/// The characters of `s`, one vector element per `char`.
pub fn chars_of(s: &str) -> (r: Vec<char>)
    ensures
        r@ == s@,
{
    let n = s.unicode_len();
    let mut r: Vec<char> = Vec::new();
    let mut i: usize = 0;
    while i < n
        invariant
            i <= n,
            n == s@.len(),
            r@ == s@.subrange(0, i as int),
        decreases n - i,
    {
        r.push(s.get_char(i));
        i = i + 1;
        proof {
            assert(r@ =~= s@.subrange(0, i as int));
        }
    }
    proof {
        assert(r@ =~= s@);
    }
    r
}

/// A `String` whose characters are exactly `v`.
pub fn string_from_chars(v: &Vec<char>) -> (r: String)
    ensures
        r@ == v@,
{
    let mut r = String::new();
    let mut i: usize = 0;
    while i < v.len()
        invariant
            i <= v@.len(),
            r@ == v@.subrange(0, i as int),
        decreases v@.len() - i,
    {
        r.push(v[i]);
        i = i + 1;
        proof {
            assert(r@ =~= v@.subrange(0, i as int));
        }
    }
    proof {
        assert(r@ =~= v@);
    }
    r
}

/// `needle` occurs in `hay` starting at position `i`.
pub open spec fn match_at(hay: Seq<char>, needle: Seq<char>, i: int) -> bool {
    0 <= i && i + needle.len() <= hay.len() && hay.subrange(i, i + needle.len()) == needle
}

/// The first position `>= i` at which `needle` occurs in `hay`, if any.
pub open spec fn spec_find_from(hay: Seq<char>, needle: Seq<char>, i: int) -> Option<int>
    decreases hay.len() - i + 1,
{
    if i < 0 || i + needle.len() > hay.len() {
        None
    } else if match_at(hay, needle, i) {
        Some(i)
    } else {
        spec_find_from(hay, needle, i + 1)
    }
}

/// The first position at which `needle` occurs in `hay`, if any.
pub open spec fn spec_find(hay: Seq<char>, needle: Seq<char>) -> Option<int> {
    spec_find_from(hay, needle, 0)
}

/// `spec_find_from` returns exactly the first match at or after `start`.
pub proof fn lemma_find_from_first(hay: Seq<char>, needle: Seq<char>, start: int, i: int)
    requires
        0 <= start <= i,
        match_at(hay, needle, i),
        forall|k: int| start <= k < i ==> !match_at(hay, needle, k),
    ensures
        spec_find_from(hay, needle, start) == Some(i),
    decreases i - start,
{
    if start < i {
        lemma_find_from_first(hay, needle, start + 1, i);
    }
}

/// A found match is a match, lies at or after the start, and no position
/// before it matches.
pub proof fn lemma_find_from_some(hay: Seq<char>, needle: Seq<char>, start: int, i: int)
    requires
        0 <= start,
        spec_find_from(hay, needle, start) == Some(i),
    ensures
        start <= i,
        match_at(hay, needle, i),
        forall|k: int| start <= k < i ==> !match_at(hay, needle, k),
    decreases hay.len() - start + 1,
{
    if !(start + needle.len() > hay.len()) && !match_at(hay, needle, start) {
        lemma_find_from_some(hay, needle, start + 1, i);
    }
}

/// When no position at or after `start` matches, the search fails.
pub proof fn lemma_find_from_none_all(hay: Seq<char>, needle: Seq<char>, start: int)
    requires
        0 <= start,
        forall|k: int| start <= k ==> !match_at(hay, needle, k),
    ensures
        spec_find_from(hay, needle, start) is None,
    decreases hay.len() - start + 1,
{
    if !(start + needle.len() > hay.len()) {
        lemma_find_from_none_all(hay, needle, start + 1);
    }
}

/// When the search fails, no position at or after `start` matches.
pub proof fn lemma_find_from_none(hay: Seq<char>, needle: Seq<char>, start: int, k: int)
    requires
        0 <= start <= k,
        spec_find_from(hay, needle, start) is None,
    ensures
        !match_at(hay, needle, k),
    decreases k - start,
{
    if start < k && !(start + needle.len() > hay.len()) {
        lemma_find_from_none(hay, needle, start + 1, k);
    }
}

/// Whether `needle` occurs in `hay` at position `i`, decided by comparing
/// the characters.
pub fn is_match_at(hay: &Vec<char>, needle: &Vec<char>, i: usize) -> (r: bool)
    requires
        i <= hay@.len(),
    ensures
        r == match_at(hay@, needle@, i as int),
{
    if needle.len() > hay.len() - i {
        return false;
    }
    proof {
        assert(hay@.len() == hay.len());
    }
    let mut j: usize = 0;
    while j < needle.len()
        invariant
            j <= needle@.len(),
            i + needle@.len() <= hay@.len(),
            hay@.len() <= usize::MAX,
            forall|k: int| 0 <= k < j ==> hay@[i + k] == needle@[k],
        decreases needle@.len() - j,
    {
        if hay[i + j] != needle[j] {
            proof {
                assert(hay@.subrange(i as int, i + needle@.len())[j as int] == hay@[i + j]);
            }
            return false;
        }
        j = j + 1;
    }
    proof {
        assert(hay@.subrange(i as int, i + needle@.len()) =~= needle@);
    }
    true
}

/// The first position `>= start` at which `needle` occurs in `hay`, found
/// by scanning left to right.
pub fn find_from(hay: &Vec<char>, needle: &Vec<char>, start: usize) -> (r: Option<usize>)
    requires
        start <= hay@.len(),
    ensures
        match r {
            Some(i) => spec_find_from(hay@, needle@, start as int) == Some(i as int),
            None => spec_find_from(hay@, needle@, start as int) is None,
        },
{
    if needle.len() > hay.len() {
        proof {
            lemma_find_from_none_all(hay@, needle@, start as int);
        }
        return None;
    }
    let last = hay.len() - needle.len();
    let mut i: usize = start;
    while i <= last
        invariant
            start <= i,
            i <= last + 1 || i == start,
            i <= hay@.len(),
            hay@.len() <= usize::MAX,
            last == hay@.len() - needle@.len(),
            needle@.len() <= hay@.len(),
            forall|k: int| start <= k < i ==> !match_at(hay@, needle@, k),
        decreases hay@.len() + 1 - i,
    {
        if is_match_at(hay, needle, i) {
            proof {
                lemma_find_from_first(hay@, needle@, start as int, i as int);
            }
            return Some(i);
        }
        proof {
            if needle@.len() == 0 {
                assert(hay@.subrange(i as int, i as int) =~= needle@);
            }
        }
        i = i + 1;
    }
    proof {
        assert forall|k: int| start <= k implies !match_at(hay@, needle@, k) by {
            if k < i {
            } else {
                assert(k + needle@.len() > hay@.len());
            }
        };
        lemma_find_from_none_all(hay@, needle@, start as int);
    }
    None
}

/// The white-space-separated tokens of `s`, in order: maximal runs of
/// non-white-space characters, as `str::split_whitespace` yields them.
pub open spec fn spec_tokens(s: Seq<char>) -> Seq<Seq<char>>
    decreases s.len(),
{
    if s.len() == 0 {
        Seq::empty()
    } else if is_ws(s[0]) {
        spec_tokens(s.drop_first())
    } else {
        let rest = spec_tokens(s.drop_first());
        if s.len() == 1 || is_ws(s[1]) {
            seq![seq![s[0]]] + rest
        } else {
            seq![seq![s[0]] + rest[0]] + rest.drop_first()
        }
    }
}

/// The tokens of `rest` when a partial token `cur` has already been read
/// immediately before it.
spec fn tokens_cont(cur: Seq<char>, rest: Seq<char>) -> Seq<Seq<char>> {
    if cur.len() == 0 {
        spec_tokens(rest)
    } else if rest.len() > 0 && !is_ws(rest[0]) {
        seq![cur + spec_tokens(rest)[0]] + spec_tokens(rest).drop_first()
    } else {
        seq![cur] + spec_tokens(rest)
    }
}

/// The white-space-separated tokens of `v`.
pub fn tokenize(v: &Vec<char>) -> (r: Vec<String>)
    ensures
        r.deep_view() == spec_tokens(v@),
{
    let mut done: Vec<String> = Vec::new();
    let mut cur: Vec<char> = Vec::new();
    let mut i: usize = 0;
    proof {
        assert(v@.subrange(0, v@.len() as int) =~= v@);
        assert(done.deep_view() =~= Seq::<Seq<char>>::empty());
        assert(Seq::<Seq<char>>::empty() + spec_tokens(v@) =~= spec_tokens(v@));
    }
    while i < v.len()
        invariant
            i <= v@.len(),
            done.deep_view() + tokens_cont(cur@, v@.subrange(i as int, v@.len() as int))
                =~~= spec_tokens(v@),
        decreases v@.len() - i,
    {
        let ghost rest = v@.subrange(i as int, v@.len() as int);
        let ghost rest2 = v@.subrange(i + 1, v@.len() as int);
        let ghost old_done = done.deep_view();
        let ghost old_cur = cur@;
        proof {
            assert(rest[0] == v@[i as int]);
            assert(rest.drop_first() =~= rest2);
        }
        let c = v[i];
        if is_ws_char(c) {
            if cur.len() > 0 {
                done.push(string_from_chars(&cur));
                cur = Vec::new();
                proof {
                    assert(done.deep_view() =~= old_done.push(old_cur));
                    assert(old_done + (seq![old_cur] + spec_tokens(rest2)) =~~= old_done.push(
                        old_cur,
                    ) + spec_tokens(rest2));
                }
            }
        } else {
            cur.push(c);
            proof {
                if rest2.len() > 0 && !is_ws(rest2[0]) {
                    assert(rest[1] == rest2[0]);
                    if old_cur.len() > 0 {
                        assert((old_cur + (seq![c] + spec_tokens(rest2)[0])) =~= (old_cur.push(c)
                            + spec_tokens(rest2)[0]));
                    } else {
                        assert((seq![c] + spec_tokens(rest2)[0]) =~= (old_cur.push(c)
                            + spec_tokens(rest2)[0]));
                    }
                } else {
                    if rest.len() > 1 {
                        assert(rest[1] == rest2[0]);
                    }
                    if old_cur.len() > 0 {
                        assert((old_cur + seq![c]) =~= old_cur.push(c));
                    } else {
                        assert(seq![c] =~= old_cur.push(c));
                    }
                }
            }
        }
        i = i + 1;
        proof {
            assert(done.deep_view() + tokens_cont(cur@, rest2) =~~= spec_tokens(v@));
        }
    }
    proof {
        assert(v@.subrange(v@.len() as int, v@.len() as int) =~= Seq::<char>::empty());
    }
    if cur.len() > 0 {
        let ghost old_done = done.deep_view();
        done.push(string_from_chars(&cur));
        proof {
            assert(done.deep_view() =~= old_done.push(cur@));
            assert(old_done + seq![cur@] =~~= old_done.push(cur@));
        }
    }
    proof {
        assert(done.deep_view() =~~= spec_tokens(v@));
    }
    done
}

/// Searching from position `p` in `m` finds the same occurrence as searching
/// the suffix of `m` that begins at `p`.
pub proof fn lemma_find_shift(m: Seq<char>, needle: Seq<char>, p: int)
    requires
        0 <= p <= m.len(),
    ensures
        spec_find_from(m, needle, p) is Some ==> spec_find(
            m.subrange(p, m.len() as int),
            needle,
        ) == Some(spec_find_from(m, needle, p)->Some_0 - p),
        spec_find_from(m, needle, p) is None ==> spec_find(
            m.subrange(p, m.len() as int),
            needle,
        ) is None,
{
    let rest = m.subrange(p, m.len() as int);
    assert forall|k: int| 0 <= k implies match_at(rest, needle, k) == match_at(
        m,
        needle,
        k + p,
    ) by {
        if k + needle.len() <= rest.len() {
            assert(rest.subrange(k, k + needle.len()) =~= m.subrange(k + p, k + p + needle.len()));
        }
    };
    if spec_find_from(m, needle, p) is Some {
        let q = spec_find_from(m, needle, p)->Some_0;
        lemma_find_from_some(m, needle, p, q);
        assert(match_at(rest, needle, q - p));
        assert forall|k: int| 0 <= k < q - p implies !match_at(rest, needle, k) by {
            assert(!match_at(m, needle, k + p));
        };
        lemma_find_from_first(rest, needle, 0, q - p);
    } else {
        assert forall|k: int| 0 <= k implies !match_at(rest, needle, k) by {
            lemma_find_from_none(m, needle, p, k + p);
        };
        lemma_find_from_none_all(rest, needle, 0);
    }
}

/// `s` with every occurrence of `from` replaced by `to`, leftmost first and
/// without overlap, as `str::replace` does.
pub open spec fn spec_replace(s: Seq<char>, from: Seq<char>, to: Seq<char>) -> Seq<char>
    decreases s.len(),
        when from.len() > 0
{
    if s.len() == 0 {
        s
    } else if match_at(s, from, 0) {
        to + spec_replace(s.subrange(from.len() as int, s.len() as int), from, to)
    } else {
        seq![s[0]] + spec_replace(s.drop_first(), from, to)
    }
}

/// Appends all characters of `t` to `acc`.
fn push_all(acc: &mut Vec<char>, t: &Vec<char>)
    ensures
        final(acc)@ == old(acc)@ + t@,
{
    let ghost acc0 = acc@;
    let mut j: usize = 0;
    proof {
        assert(acc@ =~= acc0 + t@.subrange(0, 0));
    }
    while j < t.len()
        invariant
            j <= t@.len(),
            acc@ == acc0 + t@.subrange(0, j as int),
        decreases t@.len() - j,
    {
        acc.push(t[j]);
        j = j + 1;
        proof {
            assert(acc@ =~= acc0 + t@.subrange(0, j as int));
        }
    }
    proof {
        assert(acc@ =~= acc0 + t@);
    }
}

/// `s` with every occurrence of `from` replaced by `to`.
pub fn replace_chars(s: &Vec<char>, from: &Vec<char>, to: &Vec<char>) -> (r: Vec<char>)
    requires
        from@.len() > 0,
    ensures
        r@ == spec_replace(s@, from@, to@),
{
    let mut acc: Vec<char> = Vec::new();
    let mut i: usize = 0;
    proof {
        assert(s@.len() == s.len());
        assert(s@.subrange(0, s@.len() as int) =~= s@);
        assert(acc@ + spec_replace(s@, from@, to@) =~= spec_replace(s@, from@, to@));
    }
    while i < s.len()
        invariant
            i <= s@.len(),
            s@.len() <= usize::MAX,
            from@.len() > 0,
            acc@ + spec_replace(s@.subrange(i as int, s@.len() as int), from@, to@) == spec_replace(
                s@,
                from@,
                to@,
            ),
        decreases s@.len() - i,
    {
        let ghost rest = s@.subrange(i as int, s@.len() as int);
        if is_match_at(s, from, i) {
            proof {
                assert(rest.subrange(0, from@.len() as int) =~= s@.subrange(
                    i as int,
                    i + from@.len(),
                ));
                assert(match_at(rest, from@, 0));
            }
            let ghost acc0 = acc@;
            push_all(&mut acc, to);
            i = i + from.len();
            proof {
                assert(rest.subrange(from@.len() as int, rest.len() as int) =~= s@.subrange(
                    i as int,
                    s@.len() as int,
                ));
                assert(acc@ + spec_replace(s@.subrange(i as int, s@.len() as int), from@, to@)
                    =~= spec_replace(s@, from@, to@));
            }
        } else {
            proof {
                if match_at(rest, from@, 0) {
                    assert(s@.subrange(i as int, i + from@.len()) =~= rest.subrange(
                        0,
                        from@.len() as int,
                    ));
                }
                assert(rest[0] == s@[i as int]);
            }
            acc.push(s[i]);
            i = i + 1;
            proof {
                assert(rest.drop_first() =~= s@.subrange(i as int, s@.len() as int));
                assert(acc@ + spec_replace(s@.subrange(i as int, s@.len() as int), from@, to@)
                    =~= spec_replace(s@, from@, to@));
            }
        }
    }
    proof {
        assert(s@.subrange(s@.len() as int, s@.len() as int) =~= Seq::<char>::empty());
        assert(acc@ =~= spec_replace(s@, from@, to@));
    }
    acc
}

/// `s` split at every `'\n'`; the separators are not kept, and the piece
/// after the last separator is kept even when it is empty.
pub open spec fn split_nl(s: Seq<char>) -> Seq<Seq<char>>
    decreases s.len(),
{
    if s.len() == 0 {
        seq![s]
    } else if s[0] == '\n' {
        seq![Seq::<char>::empty()] + split_nl(s.drop_first())
    } else {
        let r = split_nl(s.drop_first());
        seq![seq![s[0]] + r[0]] + r.drop_first()
    }
}

/// `split_nl` yields at least one piece.
pub proof fn lemma_split_nl_len(s: Seq<char>)
    ensures
        split_nl(s).len() >= 1,
    decreases s.len(),
{
    if s.len() > 0 {
        lemma_split_nl_len(s.drop_first());
    }
}

/// `l` without one trailing carriage return, if it has one.
pub open spec fn strip_cr(l: Seq<char>) -> Seq<char> {
    if l.len() > 0 && l.last() == '\r' {
        l.drop_last()
    } else {
        l
    }
}

/// The lines of `s`, as `str::lines` yields them: split at `'\n'`, one
/// trailing `'\r'` removed from each line that a `'\n'` followed, and no
/// final empty line after a trailing line break. A last line that no
/// `'\n'` terminates keeps a trailing `'\r'`.
pub open spec fn spec_lines(s: Seq<char>) -> Seq<Seq<char>> {
    let ps = split_nl(s);
    if ps.last().len() == 0 {
        ps.drop_last().map_values(|l: Seq<char>| strip_cr(l))
    } else {
        ps.drop_last().map_values(|l: Seq<char>| strip_cr(l)).push(ps.last())
    }
}

/// A `String` holding the first `m` characters of `v`.
pub fn string_from_prefix(v: &Vec<char>, m: usize) -> (r: String)
    requires
        m <= v@.len(),
    ensures
        r@ == v@.subrange(0, m as int),
{
    let mut r = String::new();
    let mut i: usize = 0;
    while i < m
        invariant
            i <= m,
            m <= v@.len(),
            r@ == v@.subrange(0, i as int),
        decreases m - i,
    {
        r.push(v[i]);
        i = i + 1;
        proof {
            assert(r@ =~= v@.subrange(0, i as int));
        }
    }
    r
}

/// A `String` holding the characters of `v` from `a` (inclusive) to `b`
/// (exclusive).
pub fn string_from_range(v: &Vec<char>, a: usize, b: usize) -> (r: String)
    requires
        a <= b <= v@.len(),
    ensures
        r@ == v@.subrange(a as int, b as int),
{
    let mut r = String::new();
    let mut i: usize = a;
    proof {
        assert(r@ =~= v@.subrange(a as int, a as int));
    }
    while i < b
        invariant
            a <= i <= b,
            b <= v@.len(),
            r@ == v@.subrange(a as int, i as int),
        decreases b - i,
    {
        r.push(v[i]);
        i = i + 1;
        proof {
            assert(r@ =~= v@.subrange(a as int, i as int));
        }
    }
    r
}

/// The lines of `v`, as `str::lines` yields them.
pub fn split_lines(v: &Vec<char>) -> (r: Vec<String>)
    ensures
        r.deep_view() == spec_lines(v@),
{
    let mut pieces: Vec<Vec<char>> = Vec::new();
    let mut cur: Vec<char> = Vec::new();
    let mut i: usize = 0;
    proof {
        assert(v@.subrange(0, v@.len() as int) =~= v@);
        assert(pieces.deep_view() =~= Seq::<Seq<char>>::empty());
    }
    while i < v.len()
        invariant
            i <= v@.len(),
            pieces.deep_view() + seq![cur@ + split_nl(v@.subrange(i as int, v@.len() as int))[0]]
                + split_nl(v@.subrange(i as int, v@.len() as int)).drop_first() =~~= split_nl(v@),
        decreases v@.len() - i,
    {
        let ghost rest = v@.subrange(i as int, v@.len() as int);
        let ghost rest2 = v@.subrange(i + 1, v@.len() as int);
        let ghost old_pieces = pieces.deep_view();
        let ghost old_cur = cur@;
        proof {
            assert(rest[0] == v@[i as int]);
            assert(rest.drop_first() =~= rest2);
            lemma_split_nl_len(rest2);
        }
        let c = v[i];
        if c == '\n' {
            pieces.push(cur);
            cur = Vec::new();
            proof {
                assert(pieces.deep_view() =~~= old_pieces.push(old_cur));
                assert(old_cur + Seq::<char>::empty() =~= old_cur);
                assert(seq![split_nl(rest2)[0]] + split_nl(rest2).drop_first() =~= split_nl(
                    rest2,
                ));
                assert(old_pieces.push(old_cur) + seq![cur@ + split_nl(rest2)[0]] + split_nl(
                    rest2,
                ).drop_first() =~~= old_pieces + seq![old_cur] + split_nl(rest2));
            }
        } else {
            cur.push(c);
            proof {
                assert(old_cur + (seq![c] + split_nl(rest2)[0]) =~= cur@ + split_nl(rest2)[0]);
            }
        }
        i = i + 1;
    }
    proof {
        assert(v@.subrange(v@.len() as int, v@.len() as int) =~= Seq::<char>::empty());
    }
    pieces.push(cur);
    proof {
        assert(pieces.deep_view() =~~= split_nl(v@));
        lemma_split_nl_len(v@);
    }
    // Whether the last piece was newline-terminated: then it is empty and
    // is dropped, and every kept piece may lose one trailing `'\r'`.
    let mut complete = false;
    if pieces[pieces.len() - 1].len() == 0 {
        let ghost before = pieces.deep_view();
        pieces.pop();
        complete = true;
        proof {
            assert(pieces.deep_view() =~~= before.drop_last());
        }
    }
    let ghost qs = pieces.deep_view();
    let n = pieces.len();
    proof {
        let ps = split_nl(v@);
        if complete {
            assert(qs =~~= ps.drop_last());
            assert(spec_lines(v@) == qs.map_values(|l: Seq<char>| strip_cr(l)));
        } else {
            assert(qs =~~= ps);
            assert(spec_lines(v@) == qs.drop_last().map_values(|l: Seq<char>| strip_cr(l)).push(
                qs.last(),
            ));
        }
    }
    let mut out: Vec<String> = Vec::new();
    let mut k: usize = 0;
    while k < n
        invariant
            k <= n,
            n == pieces@.len(),
            qs == pieces.deep_view(),
            complete ==> spec_lines(v@) == qs.map_values(|l: Seq<char>| strip_cr(l)),
            !complete ==> n >= 1 && spec_lines(v@) == qs.drop_last().map_values(
                |l: Seq<char>| strip_cr(l),
            ).push(qs.last()),
            out.deep_view() =~~= spec_lines(v@).subrange(0, k as int),
        decreases n - k,
    {
        let p = &pieces[k];
        let plen = p.len();
        let strip_this = complete || k + 1 < n;
        let line = if strip_this && plen > 0 && p[plen - 1] == '\r' {
            string_from_prefix(p, plen - 1)
        } else {
            string_from_prefix(p, plen)
        };
        proof {
            assert(pieces.deep_view()[k as int] =~= p@);
            assert(p@.subrange(0, p@.len() as int) =~= p@);
            if p@.len() > 0 && p@.last() == '\r' {
                assert(p@.subrange(0, p@.len() - 1) =~= strip_cr(p@));
            }
            if complete {
                assert(spec_lines(v@)[k as int] == strip_cr(qs[k as int]));
            } else if k + 1 < n {
                assert(qs.drop_last()[k as int] == qs[k as int]);
                assert(qs.drop_last().map_values(|l: Seq<char>| strip_cr(l))[k as int]
                    == strip_cr(qs[k as int]));
                assert(spec_lines(v@)[k as int] == strip_cr(qs[k as int]));
            } else {
                assert(spec_lines(v@)[k as int] == qs[k as int]);
            }
            assert(line@ == spec_lines(v@)[k as int]);
        }
        let ghost old_out = out.deep_view();
        out.push(line);
        k = k + 1;
        proof {
            assert(out.deep_view() =~~= old_out.push(line@));
            assert(out.deep_view() =~~= spec_lines(v@).subrange(0, k as int));
        }
    }
    proof {
        assert(spec_lines(v@).len() == n);
        assert(out.deep_view() =~~= spec_lines(v@));
    }
    out
}

/// Character-for-character string equality.
pub fn str_eq(a: &str, b: &str) -> (r: bool)
    ensures
        r == (a@ == b@),
{
    let na = a.unicode_len();
    let nb = b.unicode_len();
    if na != nb {
        return false;
    }
    let mut i: usize = 0;
    while i < na
        invariant
            i <= na,
            na == a@.len(),
            na == b@.len(),
            forall|k: int| 0 <= k < i ==> a@[k] == b@[k],
        decreases na - i,
    {
        if a.get_char(i) != b.get_char(i) {
            return false;
        }
        i = i + 1;
    }
    proof {
        assert(a@ =~= b@);
    }
    true
}

} // verus!

//! Text primitives. Strings are modelled as `Seq<char>`; the executable
//! functions work on `Vec<char>` and are proved against the spec functions
//! defined here.

use vstd::prelude::*;

verus! {

/// `s` with every leading repetition of `pat` removed. An empty pattern
/// removes nothing.
pub open spec fn strip_leading(s: Seq<char>, pat: Seq<char>) -> Seq<char>
    decreases s.len(),
{
    if pat.len() > 0 && pat.is_prefix_of(s) {
        strip_leading(s.skip(pat.len() as int), pat)
    } else {
        s
    }
}

/// `s` with every trailing repetition of `pat` removed. An empty pattern
/// removes nothing.
pub open spec fn strip_trailing(s: Seq<char>, pat: Seq<char>) -> Seq<char>
    decreases s.len(),
{
    if pat.len() > 0 && pat.is_suffix_of(s) {
        strip_trailing(s.take(s.len() - pat.len()), pat)
    } else {
        s
    }
}

/// `s` with every occurrence of `from` replaced by `to`, scanning from the
/// left and never looking again at what was already replaced. An empty
/// pattern replaces nothing.
pub open spec fn replace_all(s: Seq<char>, from: Seq<char>, to: Seq<char>) -> Seq<char>
    decreases s.len(),
{
    if s.len() == 0 || from.len() == 0 {
        s
    } else if from.is_prefix_of(s) {
        to + replace_all(s.skip(from.len() as int), from, to)
    } else {
        seq![s[0]] + replace_all(s.skip(1), from, to)
    }
}

/// Index of the first `c` in `s`, or `s.len()` where `s` holds none.
pub open spec fn first_index_of(s: Seq<char>, c: char) -> int
    decreases s.len(),
{
    if s.len() == 0 || s[0] == c {
        0
    } else {
        1 + first_index_of(s.skip(1), c)
    }
}

/// Index of the last `c` in `s`, or `-1` where `s` holds none.
pub open spec fn last_index_of(s: Seq<char>, c: char) -> int
    decreases s.len(),
{
    if s.len() == 0 {
        -1
    } else if s.last() == c {
        s.len() - 1
    } else {
        last_index_of(s.drop_last(), c)
    }
}

/// What follows the last `c` in `s`; all of `s` where it holds none.
pub open spec fn after_last(s: Seq<char>, c: char) -> Seq<char> {
    s.skip(last_index_of(s, c) + 1)
}

/// What precedes the last `c` in `s`; nothing where it holds none.
pub open spec fn before_last(s: Seq<char>, c: char) -> Seq<char> {
    if last_index_of(s, c) < 0 {
        Seq::empty()
    } else {
        s.take(last_index_of(s, c))
    }
}

/// The pieces of `s` between occurrences of `c`, in order. There is always
/// one piece more than there are occurrences.
pub open spec fn split(s: Seq<char>, c: char) -> Seq<Seq<char>>
    decreases s.len(),
{
    let i = first_index_of(s, c);
    if i < 0 || i >= s.len() {
        seq![s]
    } else {
        seq![s.take(i)] + split(s.skip(i + 1), c)
    }
}

/// Does `a` come before `b` in the order of strings? That order goes by the
/// first character in which the two differ, and puts a string before every
/// longer one that begins with it.
pub open spec fn precedes(a: Seq<char>, b: Seq<char>) -> bool
    decreases a.len(),
{
    if b.len() == 0 {
        false
    } else if a.len() == 0 {
        true
    } else if a[0] == b[0] {
        precedes(a.skip(1), b.skip(1))
    } else {
        a[0] < b[0]
    }
}

/// No string comes before itself.
pub proof fn lemma_precedes_irreflexive(a: Seq<char>)
    ensures
        !precedes(a, a),
    decreases a.len(),
{
    if a.len() > 0 {
        lemma_precedes_irreflexive(a.skip(1));
    }
}

/// What comes before a string comes before all that the string comes before.
pub proof fn lemma_precedes_transitive(a: Seq<char>, b: Seq<char>, c: Seq<char>)
    requires
        precedes(a, b),
        precedes(b, c),
    ensures
        precedes(a, c),
    decreases a.len(),
{
    if a.len() > 0 && a[0] == b[0] && b[0] == c[0] {
        lemma_precedes_transitive(a.skip(1), b.skip(1), c.skip(1));
    }
}

/// Of two different strings, one comes before the other.
pub proof fn lemma_precedes_total(a: Seq<char>, b: Seq<char>)
    requires
        a != b,
    ensures
        precedes(a, b) || precedes(b, a),
    decreases a.len(),
{
    if a.len() > 0 && b.len() > 0 && a[0] == b[0] {
        if a.skip(1) == b.skip(1) {
            assert(a =~= seq![a[0]] + a.skip(1));
            assert(b =~= seq![b[0]] + b.skip(1));
        }
        lemma_precedes_total(a.skip(1), b.skip(1));
    } else if a.len() == 0 && b.len() == 0 {
        assert(a =~= b);
    }
}

/// The character sequences that the rows hold.
pub open spec fn rows_view(rows: Seq<Vec<char>>) -> Seq<Seq<char>> {
    rows.map_values(|row: Vec<char>| row@)
}

/// The character sequences that the strings hold.
pub open spec fn texts_view(texts: Seq<String>) -> Seq<Seq<char>> {
    texts.map_values(|text: String| text@)
}

/// The character sequences that the pairs of strings hold.
pub open spec fn pair_views(pairs: Seq<(String, String)>) -> Seq<(Seq<char>, Seq<char>)> {
    pairs.map_values(|pair: (String, String)| (pair.0@, pair.1@))
}

/// `s` without its `'\n'` characters.
pub open spec fn without_newlines(s: Seq<char>) -> Seq<char> {
    s.filter(|c: char| c != '\n')
}

/// Where `last_index_of` points, there is a `c`, and none follows it.
pub proof fn lemma_last_index_of(s: Seq<char>, c: char)
    ensures
        -1 <= last_index_of(s, c) < s.len(),
        last_index_of(s, c) >= 0 ==> s[last_index_of(s, c)] == c,
        forall|j: int| last_index_of(s, c) < j < s.len() ==> s[j] != c,
    decreases s.len(),
{
    if s.len() > 0 && s.last() != c {
        lemma_last_index_of(s.drop_last(), c);
        assert forall|j: int| last_index_of(s, c) < j < s.len() implies s[j] != c by {
            if j < s.len() - 1 {
                assert(s.drop_last()[j] == s[j]);
            }
        }
    }
}

/// Where `first_index_of` points, there is a `c`, and none precedes it.
pub proof fn lemma_first_index_of(s: Seq<char>, c: char)
    ensures
        0 <= first_index_of(s, c) <= s.len(),
        first_index_of(s, c) < s.len() ==> s[first_index_of(s, c)] == c,
        forall|j: int| 0 <= j < first_index_of(s, c) ==> s[j] != c,
    decreases s.len(),
{
    if s.len() > 0 && s[0] != c {
        lemma_first_index_of(s.skip(1), c);
        assert forall|j: int| 0 <= j < first_index_of(s, c) implies s[j] != c by {
            if j > 0 {
                assert(s.skip(1)[j - 1] == s[j]);
            }
        }
    }
}

/// The file name of a path: what follows its last `'/'`.
pub open spec fn last_segment(path: Seq<char>) -> Seq<char> {
    after_last(path, '/')
}

/// The characters of a string.
pub fn chars_of(s: &str) -> (chars: Vec<char>)
    ensures
        chars@ == s@,
{
    let mut chars: Vec<char> = Vec::new();
    for c in it: s.chars()
        invariant
            chars@ == it.seq().take(it.index() as int),
            it.seq() == s@,
    {
        chars.push(c);
    }
    chars
}

/// `String::from_iter` over the characters of a vector: the string made of
/// exactly these characters, in this order.
#[verifier::external_body]
pub(crate) fn string_of(chars: &Vec<char>) -> (text: String)
    ensures
        text@ == chars@,
{
    String::from_iter(chars.iter())
}

/// A copy of `s[from..to]`.
pub fn copy_range(s: &Vec<char>, from: usize, to: usize) -> (piece: Vec<char>)
    requires
        from <= to <= s.len(),
    ensures
        piece@ == s@.subrange(from as int, to as int),
{
    let mut piece: Vec<char> = Vec::new();
    let mut i: usize = from;
    while i < to
        invariant
            from <= i <= to <= s.len(),
            piece@ == s@.subrange(from as int, i as int),
        decreases to - i,
    {
        piece.push(s[i]);
        i += 1;
    }
    piece
}

/// Appends `more` to `out`.
pub fn push_all(out: &mut Vec<char>, more: &Vec<char>)
    ensures
        final(out)@ == old(out)@ + more@,
{
    let mut i: usize = 0;
    while i < more.len()
        invariant
            i <= more.len(),
            out@ == old(out)@ + more@.take(i as int),
        decreases more.len() - i,
    {
        out.push(more[i]);
        i += 1;
    }
}

/// Does `pat` stand in `s` at offset `at`?
pub fn matches_at(s: &Vec<char>, at: usize, pat: &Vec<char>) -> (found: bool)
    requires
        at <= s.len(),
    ensures
        found == pat@.is_prefix_of(s@.skip(at as int)),
{
    if pat.len() > s.len() - at {
        return false;
    }
    let mut i: usize = 0;
    while i < pat.len()
        invariant
            at <= s.len(),
            pat.len() <= s.len() - at,
            i <= pat.len(),
            forall|j: int| 0 <= j < i ==> pat@[j] == s@[at + j],
        decreases pat.len() - i,
    {
        if pat[i] != s[at + i] {
            assert(s@.skip(at as int).subrange(0, pat@.len() as int)[i as int] == s@[at + i]);
            return false;
        }
        i += 1;
    }
    assert(pat@ =~= s@.skip(at as int).subrange(0, pat@.len() as int));
    true
}

/// Does `s` end with `pat`?
pub fn ends_with(s: &Vec<char>, pat: &Vec<char>) -> (found: bool)
    ensures
        found == pat@.is_suffix_of(s@),
{
    if pat.len() > s.len() {
        return false;
    }
    let at: usize = s.len() - pat.len();
    let found = matches_at(s, at, pat);
    proof {
        assert(s@.skip(at as int).subrange(0, pat@.len() as int) =~= s@.subrange(
            s@.len() - pat@.len(),
            s@.len() as int,
        ));
    }
    found
}

/// Do the two hold the same characters?
pub fn same_chars(a: &Vec<char>, b: &Vec<char>) -> (same: bool)
    ensures
        same == (a@ == b@),
{
    if a.len() != b.len() {
        return false;
    }
    let same = matches_at(a, 0, b);
    proof {
        assert(a@.skip(0).subrange(0, b@.len() as int) =~= a@);
    }
    same
}

/// Does `a` come before `b` in the order of strings?
pub fn chars_precede(a: &Vec<char>, b: &Vec<char>) -> (before: bool)
    ensures
        before == precedes(a@, b@),
{
    let mut i: usize = 0;
    proof {
        assert(a@.skip(0) =~= a@);
        assert(b@.skip(0) =~= b@);
    }
    while i < a.len() && i < b.len()
        invariant
            i <= a.len(),
            i <= b.len(),
            precedes(a@, b@) == precedes(a@.skip(i as int), b@.skip(i as int)),
        decreases a.len() - i,
    {
        if a[i] != b[i] {
            return a[i] < b[i];
        }
        proof {
            assert(a@.skip(i as int).skip(1) =~= a@.skip(i + 1));
            assert(b@.skip(i as int).skip(1) =~= b@.skip(i + 1));
        }
        i += 1;
    }
    i < b.len()
}

/// Does `a` come before `b` in the order of strings?
pub fn text_precedes(a: &str, b: &str) -> (before: bool)
    ensures
        before == precedes(a@, b@),
{
    chars_precede(&chars_of(a), &chars_of(b))
}

/// Do the two strings hold the same characters?
pub fn same_text(a: &str, b: &str) -> (same: bool)
    ensures
        same == (a@ == b@),
{
    let a_chars = chars_of(a);
    let b_chars = chars_of(b);
    same_chars(&a_chars, &b_chars)
}

/// The offset in `s` at which `strip_leading` of `s[from..]` begins.
pub fn leading_end(s: &Vec<char>, from: usize, pat: &Vec<char>) -> (at: usize)
    requires
        from <= s.len(),
    ensures
        from <= at <= s.len(),
        s@.skip(at as int) == strip_leading(s@.skip(from as int), pat@),
{
    let mut at: usize = from;
    if pat.len() == 0 {
        return at;
    }
    while matches_at(s, at, pat)
        invariant
            from <= at <= s.len(),
            pat.len() > 0,
            strip_leading(s@.skip(at as int), pat@) == strip_leading(s@.skip(from as int), pat@),
        decreases s.len() - at,
    {
        proof {
            assert(s@.skip(at as int).skip(pat@.len() as int) =~= s@.skip(at + pat@.len()));
        }
        at += pat.len();
    }
    at
}

/// The offset in `s` at which `strip_trailing` of `s[from..]` ends.
pub fn trailing_start(s: &Vec<char>, from: usize, pat: &Vec<char>) -> (to: usize)
    requires
        from <= s.len(),
    ensures
        from <= to <= s.len(),
        s@.subrange(from as int, to as int) == strip_trailing(s@.skip(from as int), pat@),
{
    let mut to: usize = s.len();
    proof {
        assert(s@.subrange(from as int, to as int) =~= s@.skip(from as int));
    }
    if pat.len() == 0 {
        return to;
    }
    while to - from >= pat.len() && matches_at(s, to - pat.len(), pat)
        invariant
            from <= to <= s.len(),
            pat.len() > 0,
            strip_trailing(s@.subrange(from as int, to as int), pat@) == strip_trailing(
                s@.skip(from as int),
                pat@,
            ),
        decreases to - from,
    {
        proof {
            let cur = s@.subrange(from as int, to as int);
            assert(cur.subrange(cur.len() - pat@.len(), cur.len() as int) =~= s@.skip(
                to - pat@.len(),
            ).subrange(0, pat@.len() as int));
            assert(cur.take(cur.len() - pat@.len()) =~= s@.subrange(
                from as int,
                to - pat@.len(),
            ));
        }
        to -= pat.len();
    }
    proof {
        let cur = s@.subrange(from as int, to as int);
        if cur.len() >= pat@.len() {
            assert(cur.subrange(cur.len() - pat@.len(), cur.len() as int) =~= s@.skip(
                to - pat@.len(),
            ).subrange(0, pat@.len() as int));
        }
    }
    to
}

/// `replace_all` on `s[from..to]`.
pub fn replace_range(
    s: &Vec<char>,
    from: usize,
    to: usize,
    pat: &Vec<char>,
    with: &Vec<char>,
) -> (out: Vec<char>)
    requires
        from <= to <= s.len(),
    ensures
        out@ == replace_all(s@.subrange(from as int, to as int), pat@, with@),
{
    if pat.len() == 0 {
        return copy_range(s, from, to);
    }
    let mut out: Vec<char> = Vec::new();
    let mut i: usize = from;
    while i < to
        invariant
            from <= i <= to <= s.len(),
            pat.len() > 0,
            out@ + replace_all(s@.subrange(i as int, to as int), pat@, with@) == replace_all(
                s@.subrange(from as int, to as int),
                pat@,
                with@,
            ),
        decreases to - i,
    {
        let ghost rest = s@.subrange(i as int, to as int);
        if to - i >= pat.len() && matches_at(s, i, pat) {
            proof {
                assert(rest.subrange(0, pat@.len() as int) =~= s@.skip(i as int).subrange(
                    0,
                    pat@.len() as int,
                ));
                assert(rest.skip(pat@.len() as int) =~= s@.subrange(i + pat@.len(), to as int));
                assert(out@ + with@ + replace_all(rest.skip(pat@.len() as int), pat@, with@)
                    =~= out@ + (with@ + replace_all(rest.skip(pat@.len() as int), pat@, with@)));
            }
            push_all(&mut out, with);
            i += pat.len();
        } else {
            proof {
                if rest.len() >= pat@.len() {
                    assert(rest.subrange(0, pat@.len() as int) =~= s@.skip(i as int).subrange(
                        0,
                        pat@.len() as int,
                    ));
                }
                assert(rest.skip(1) =~= s@.subrange(i + 1, to as int));
                assert(out@.push(s@[i as int]) + replace_all(rest.skip(1), pat@, with@) =~= out@
                    + (seq![rest[0]] + replace_all(rest.skip(1), pat@, with@)));
            }
            out.push(s[i]);
            i += 1;
        }
    }
    proof {
        assert(out@ + Seq::<char>::empty() =~= out@);
    }
    out
}

/// The offset of the last `c` in `s`, if there is one.
pub fn find_last(s: &Vec<char>, c: char) -> (at: Option<usize>)
    ensures
        match at {
            Some(i) => i < s.len() && i == last_index_of(s@, c),
            None => last_index_of(s@, c) == -1,
        },
{
    let mut i: usize = s.len();
    proof {
        assert(s@.take(i as int) =~= s@);
    }
    while i > 0
        invariant
            i <= s.len(),
            last_index_of(s@.take(i as int), c) == last_index_of(s@, c),
        decreases i,
    {
        if s[i - 1] == c {
            return Some(i - 1);
        }
        proof {
            assert(s@.take(i as int).drop_last() =~= s@.take(i - 1));
        }
        i -= 1;
    }
    None
}

/// The offset of the first `c` in `s[from..]`, or `s.len()`.
pub fn find_from(s: &Vec<char>, from: usize, c: char) -> (at: usize)
    requires
        from <= s.len(),
    ensures
        from <= at <= s.len(),
        at - from == first_index_of(s@.skip(from as int), c),
{
    let mut at: usize = from;
    while at < s.len() && s[at] != c
        invariant
            from <= at <= s.len(),
            first_index_of(s@.skip(from as int), c) == (at - from) + first_index_of(
                s@.skip(at as int),
                c,
            ),
        decreases s.len() - at,
    {
        proof {
            assert(s@.skip(at as int).skip(1) =~= s@.skip(at + 1));
        }
        at += 1;
    }
    at
}

/// Does `s[..to]` hold a `c`?
pub fn holds_before(s: &Vec<char>, to: usize, c: char) -> (found: bool)
    requires
        to <= s.len(),
    ensures
        found == s@.take(to as int).contains(c),
{
    let mut i: usize = 0;
    while i < to
        invariant
            i <= to <= s.len(),
            forall|j: int| 0 <= j < i ==> s@[j] != c,
        decreases to - i,
    {
        if s[i] == c {
            assert(s@.take(to as int)[i as int] == c);
            return true;
        }
        i += 1;
    }
    false
}

/// The pieces of `s` between occurrences of `c`.
pub fn split_at_each(s: &Vec<char>, c: char) -> (pieces: Vec<Vec<char>>)
    ensures
        rows_view(pieces@) == split(s@, c),
{
    let mut pieces: Vec<Vec<char>> = Vec::new();
    let mut start: usize = 0;
    proof {
        assert(s@.skip(0) =~= s@);
        assert(rows_view(pieces@) + split(s@, c) =~= split(s@, c));
    }
    loop
        invariant_except_break
            start <= s.len(),
            rows_view(pieces@) + split(s@.skip(start as int), c) == split(s@, c),
        ensures
            rows_view(pieces@) == split(s@, c),
        decreases s.len() - start,
    {
        let at = find_from(s, start, c);
        let piece = copy_range(s, start, at);
        let ghost before = rows_view(pieces@);
        let ghost rest = s@.skip(start as int);
        proof {
            assert(rest.take(at - start) =~= s@.subrange(start as int, at as int));
        }
        pieces.push(piece);
        proof {
            assert(rows_view(pieces@) =~= before.push(piece@));
        }
        if at >= s.len() {
            proof {
                assert(rest.take(rest.len() as int) =~= rest);
                assert(before.push(piece@) =~= before + seq![rest]);
            }
            break;
        }
        proof {
            assert(rest.skip(at - start + 1) =~= s@.skip(at + 1));
            assert(before.push(piece@) + split(s@.skip(at + 1), c) =~= before + (seq![piece@]
                + split(s@.skip(at + 1), c)));
        }
        start = at + 1;
    }
    pieces
}

/// A copy of `s` without its `'\n'` characters.
pub fn drop_newlines(s: &Vec<char>) -> (out: Vec<char>)
    ensures
        out@ == without_newlines(s@),
{
    let mut out: Vec<char> = Vec::new();
    let mut i: usize = 0;
    proof {
        reveal(Seq::filter);
        assert(s@.take(0) =~= Seq::<char>::empty());
    }
    while i < s.len()
        invariant
            i <= s.len(),
            out@ == without_newlines(s@.take(i as int)),
        decreases s.len() - i,
    {
        proof {
            assert(s@.take(i + 1) =~= s@.take(i as int).push(s@[i as int]));
            s@.take(i as int).lemma_filter_push(s@[i as int], |c: char| c != '\n');
        }
        if s[i] != '\n' {
            out.push(s[i]);
        }
        i += 1;
    }
    proof {
        assert(s@.take(s@.len() as int) =~= s@);
    }
    out
}

} // verus!

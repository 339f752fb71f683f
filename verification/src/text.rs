//! Character sequences: white space, trimming, searching and splitting.
//!
//! Every text in this library is read as its sequence of characters, the view of a
//! `&str` or a `String`. The functions here are stated over such sequences.

use vstd::prelude::*;
use vstd::string::*;

verus! {

/// Whether `c` is white space: tab to carriage return, the space, and the other
/// characters that Unicode gives the property White_Space.
pub open spec fn is_space(c: char) -> bool {
    ||| '\u{9}' <= c <= '\u{D}'
    ||| c == ' '
    ||| c == '\u{85}'
    ||| c == '\u{A0}'
    ||| c == '\u{1680}'
    ||| '\u{2000}' <= c <= '\u{200A}'
    ||| c == '\u{2028}'
    ||| c == '\u{2029}'
    ||| c == '\u{202F}'
    ||| c == '\u{205F}'
    ||| c == '\u{3000}'
}

/// The first index from `i` on that holds no white space, or the length.
pub open spec fn skip_spaces(s: Seq<char>, i: int) -> int
    decreases s.len() - i,
{
    if 0 <= i < s.len() && is_space(s[i]) {
        skip_spaces(s, i + 1)
    } else {
        i
    }
}

/// The end of `s` once the white space before index `j` is taken off, never below `floor`.
pub open spec fn skip_spaces_back(s: Seq<char>, floor: int, j: int) -> int
    decreases j,
{
    if 0 <= floor < j <= s.len() && is_space(s[j - 1]) {
        skip_spaces_back(s, floor, j - 1)
    } else {
        j
    }
}

/// Where the trimmed part of `s` begins.
pub open spec fn trim_start(s: Seq<char>) -> int {
    skip_spaces(s, 0)
}

/// Where the trimmed part of `s` ends.
pub open spec fn trim_end(s: Seq<char>) -> int {
    skip_spaces_back(s, trim_start(s), s.len() as int)
}

/// `s` without the white space at its two ends.
pub open spec fn trim(s: Seq<char>) -> Seq<char> {
    s.subrange(trim_start(s), trim_end(s))
}

/// Whether `pat` stands in `s` at index `i`.
pub open spec fn occurs_at(s: Seq<char>, i: int, pat: Seq<char>) -> bool {
    &&& 0 <= i
    &&& i + pat.len() <= s.len()
    &&& s.subrange(i, i + pat.len()) == pat
}

/// The first index from `from` on at which `pat` stands in `s`. An empty `pat` stands nowhere.
pub open spec fn first_occurrence(s: Seq<char>, pat: Seq<char>, from: int) -> Option<int>
    decreases s.len() - from,
{
    if from < 0 || pat.len() == 0 || from + pat.len() > s.len() {
        None
    } else if occurs_at(s, from, pat) {
        Some(from)
    } else {
        first_occurrence(s, pat, from + 1)
    }
}

/// Whether `pat` stands somewhere in `s`; the empty text stands in every text.
pub open spec fn holds(s: Seq<char>, pat: Seq<char>) -> bool {
    pat.len() == 0 || first_occurrence(s, pat, 0) is Some
}

/// `line` without the carriage return at its end, if it has one.
pub open spec fn strip_return(line: Seq<char>) -> Seq<char> {
    if line.len() > 0 && line.last() == '\r' {
        line.drop_last()
    } else {
        line
    }
}

/// The lines of a text as they stand: each ends at a line feed, and a carriage return
/// before the line feed is not part of the line. What follows the last line feed is a
/// line of its own unless it is empty.
pub open spec fn raw_lines(text: Seq<char>) -> Seq<Seq<char>> {
    let pieces = split_on(text, "\n"@);
    let ended = pieces.drop_last().map_values(|l: Seq<char>| strip_return(l));
    if pieces.last().len() == 0 {
        ended
    } else {
        ended.push(pieces.last())
    }
}

/// The pieces of `s` between the occurrences of `sep`, taken from the left. An empty `sep`
/// cuts nowhere.
pub open spec fn split_on(s: Seq<char>, sep: Seq<char>) -> Seq<Seq<char>>
    decreases s.len(),
{
    match first_occurrence(s, sep, 0) {
        Some(i) if sep.len() > 0 && 0 <= i && i + sep.len() <= s.len() => seq![s.subrange(0, i)]
            + split_on(
            s.subrange(i + sep.len(), s.len() as int),
            sep,
        ),
        _ => seq![s],
    }
}

/// The pieces joined again, with `sep` between each two.
pub open spec fn join_with(parts: Seq<Seq<char>>, sep: Seq<char>) -> Seq<char>
    decreases parts.len(),
{
    if parts.len() == 0 {
        Seq::empty()
    } else if parts.len() == 1 {
        parts[0]
    } else {
        join_with(parts.drop_last(), sep) + sep + parts.last()
    }
}

/// The lines of a text: the trimmed text cut at each line feed, each piece trimmed.
pub open spec fn lines_of(text: Seq<char>) -> Seq<Seq<char>> {
    split_on(trim(text), "\n"@).map_values(|l: Seq<char>| trim(l))
}

/// The texts that a vector of strings holds.
pub open spec fn texts_of(v: Seq<String>) -> Seq<Seq<char>> {
    v.map_values(|s: String| s@)
}

/// The texts that a vector of string slices holds.
pub open spec fn slices_of(v: Seq<&str>) -> Seq<Seq<char>> {
    v.map_values(|s: &str| s@)
}

/// What `first_occurrence` finds is an occurrence, and the first one from `from` on.
pub proof fn lemma_first_occurrence(s: Seq<char>, pat: Seq<char>, from: int)
    requires
        0 <= from,
    ensures
        match first_occurrence(s, pat, from) {
            Some(i) => from <= i && occurs_at(s, i, pat) && forall|j: int|
                from <= j < i ==> !occurs_at(s, j, pat),
            None => pat.len() == 0 || forall|j: int| from <= j ==> !occurs_at(s, j, pat),
        },
    decreases s.len() - from,
{
    if pat.len() == 0 || from + pat.len() > s.len() {
    } else if occurs_at(s, from, pat) {
    } else {
        lemma_first_occurrence(s, pat, from + 1);
    }
}

/// An occurrence with none before it is what `first_occurrence` finds.
pub proof fn lemma_first_occurrence_is(s: Seq<char>, pat: Seq<char>, from: int, i: int)
    requires
        0 <= from <= i,
        pat.len() > 0,
        occurs_at(s, i, pat),
        forall|j: int| from <= j < i ==> !occurs_at(s, j, pat),
    ensures
        first_occurrence(s, pat, from) == Some(i),
    decreases i - from,
{
    if from < i {
        lemma_first_occurrence_is(s, pat, from + 1, i);
    }
}

/// A text of one character stands wherever that character does.
pub proof fn lemma_occurs_one(s: Seq<char>, i: int, pat: Seq<char>)
    requires
        0 <= i < s.len(),
        pat.len() == 1,
        s[i] == pat[0],
    ensures
        occurs_at(s, i, pat),
{
    assert(s.subrange(i, i + 1) =~= pat);
}

/// Where `pat` stands, its first character does.
pub proof fn lemma_occurs_first_char(s: Seq<char>, i: int, pat: Seq<char>)
    requires
        occurs_at(s, i, pat),
        pat.len() > 0,
    ensures
        s[i] == pat[0],
{
    assert(s.subrange(i, i + pat.len())[0] == pat[0]);
}

/// A text stands behind whatever is put before it.
pub proof fn lemma_occurs_in_concat(pre: Seq<char>, pat: Seq<char>, post: Seq<char>)
    ensures
        occurs_at(pre + pat + post, pre.len() as int, pat),
{
    assert((pre + pat + post).subrange(pre.len() as int, pre.len() as int + pat.len()) =~= pat);
}

/// An occurrence before which the first character of `pat` does not stand, from `from`
/// on, is the first one.
pub proof fn lemma_first_occurrence_by_first_char(s: Seq<char>, pat: Seq<char>, from: int, i: int)
    requires
        0 <= from <= i,
        pat.len() > 0,
        occurs_at(s, i, pat),
        forall|j: int| from <= j < i ==> #[trigger] s[j] != pat[0],
    ensures
        first_occurrence(s, pat, from) == Some(i),
{
    assert forall|j: int| from <= j < i implies !occurs_at(s, j, pat) by {
        if occurs_at(s, j, pat) {
            lemma_occurs_first_char(s, j, pat);
        }
    }
    lemma_first_occurrence_is(s, pat, from, i);
}

/// Joining takes the first piece, the separator, and the other pieces joined.
pub proof fn lemma_join_from_the_front(parts: Seq<Seq<char>>, sep: Seq<char>)
    requires
        parts.len() >= 2,
    ensures
        join_with(parts, sep) == parts[0] + sep + join_with(parts.drop_first(), sep),
    decreases parts.len(),
{
    if parts.len() == 2 {
        assert(parts.drop_last().len() == 1);
        assert(parts.drop_first().len() == 1);
        assert(join_with(parts.drop_last(), sep) == parts[0]);
        assert(join_with(parts.drop_first(), sep) == parts[1]);
    } else {
        lemma_join_from_the_front(parts.drop_last(), sep);
        assert(parts.drop_last().drop_first() =~= parts.drop_first().drop_last());
        assert(parts.drop_first().last() == parts.last());
        assert(parts.drop_last()[0] == parts[0]);
        assert(join_with(parts, sep) =~= parts[0] + sep + join_with(parts.drop_first(), sep));
    }
}

/// Pieces in which `, ` does not stand come back when they are joined by `, ` and split
/// on it again.
pub proof fn lemma_split_of_join(parts: Seq<Seq<char>>)
    requires
        parts.len() >= 1,
        forall|k: int|
            0 <= k < parts.len() ==> first_occurrence(#[trigger] parts[k], ", "@, 0) is None,
    ensures
        split_on(join_with(parts, ", "@), ", "@) == parts,
    decreases parts.len(),
{
    reveal_strlit(", ");
    let sep = ", "@;
    if parts.len() == 1 {
        assert(join_with(parts, sep) == parts[0]);
        assert(split_on(parts[0], sep) =~= parts);
    } else {
        let first = parts[0];
        let others = parts.drop_first();
        let tail = join_with(others, sep);
        let text = join_with(parts, sep);
        lemma_join_from_the_front(parts, sep);
        assert forall|k: int| 0 <= k < others.len() implies first_occurrence(
            #[trigger] others[k],
            sep,
            0,
        ) is None by {
            assert(others[k] == parts[k + 1]);
        }
        lemma_split_of_join(others);
        lemma_occurs_in_concat(first, sep, tail);
        lemma_first_occurrence(first, sep, 0);
        assert forall|j: int| 0 <= j < first.len() implies !occurs_at(text, j, sep) by {
            if occurs_at(text, j, sep) {
                if j + 2 <= first.len() {
                    assert(text.subrange(j, j + 2) =~= first.subrange(j, j + 2));
                    assert(occurs_at(first, j, sep));
                } else {
                    assert(text.subrange(j, j + 2)[1] == sep[1]);
                    assert(text[j + 1] == sep[0]);
                }
            }
        }
        lemma_first_occurrence_is(text, sep, 0, first.len() as int);
        assert(text.subrange(0, first.len() as int) =~= first);
        assert(text.subrange(first.len() as int + sep.len(), text.len() as int) =~= tail);
        assert(seq![first] + others =~= parts);
    }
}

/// Whether `c` is white space.
pub fn is_space_char(c: char) -> (r: bool)
    ensures
        r == is_space(c),
{
    ('\u{9}' <= c && c <= '\u{D}') || c == ' ' || c == '\u{85}' || c == '\u{A0}' || c
        == '\u{1680}' || ('\u{2000}' <= c && c <= '\u{200A}') || c == '\u{2028}' || c
        == '\u{2029}' || c == '\u{202F}' || c == '\u{205F}' || c == '\u{3000}'
}

/// The characters of `s`, one by one.
pub fn chars_of(s: &str) -> (v: Vec<char>)
    ensures
        v@ == s@,
{
    let mut v: Vec<char> = Vec::new();
    for c in it: s.chars()
        invariant
            it.seq() == s@,
            v@ == s@.take(it.index()),
    {
        v.push(c);
    }
    v
}

/// Whether two texts hold the same characters.
pub fn same_text(a: &str, b: &str) -> (r: bool)
    ensures
        r == (a@ == b@),
{
    let x = chars_of(a);
    let y = chars_of(b);
    if x.len() != y.len() {
        return false;
    }
    let mut i: usize = 0;
    while i < x.len()
        invariant
            x@ == a@,
            y@ == b@,
            x.len() == y.len(),
            i <= x.len(),
            x@.take(i as int) == y@.take(i as int),
        decreases x.len() - i,
    {
        if x[i] != y[i] {
            assert(x@[i as int] != y@[i as int]);
            return false;
        }
        assert(x@.take(i + 1) == x@.take(i as int).push(x@[i as int]));
        assert(y@.take(i + 1) == y@.take(i as int).push(y@[i as int]));
        i += 1;
    }
    assert(x@ == x@.take(i as int));
    assert(y@ == y@.take(i as int));
    true
}

/// Whether `pat` stands in `chars` at index `at`.
pub fn has_at(chars: &Vec<char>, at: usize, pat: &Vec<char>) -> (r: bool)
    ensures
        r == occurs_at(chars@, at as int, pat@),
{
    if pat.len() > chars.len() || at > chars.len() - pat.len() {
        return false;
    }
    let mut k: usize = 0;
    while k < pat.len()
        invariant
            at + pat.len() <= chars.len(),
            k <= pat.len(),
            chars@.subrange(at as int, at + k) == pat@.take(k as int),
        decreases pat.len() - k,
    {
        if chars[at + k] != pat[k] {
            assert(chars@.subrange(at as int, at + pat.len())[k as int] != pat@[k as int]);
            return false;
        }
        assert(chars@.subrange(at as int, at + k + 1) == chars@.subrange(at as int, at + k).push(
            chars@[at + k],
        ));
        assert(pat@.take(k + 1) == pat@.take(k as int).push(pat@[k as int]));
        k += 1;
    }
    assert(pat@ == pat@.take(k as int));
    true
}

/// The first index from `from` on at which `pat` stands in `chars`.
pub fn find(chars: &Vec<char>, pat: &Vec<char>, from: usize) -> (r: Option<usize>)
    ensures
        match r {
            Some(i) => first_occurrence(chars@, pat@, from as int) == Some(i as int),
            None => first_occurrence(chars@, pat@, from as int) is None,
        },
{
    if pat.len() == 0 || pat.len() > chars.len() || from > chars.len() - pat.len() {
        return None;
    }
    let last: usize = chars.len() - pat.len();
    let mut i: usize = from;
    while i <= last
        invariant
            pat.len() > 0,
            last == chars.len() - pat.len(),
            from <= i <= last + 1,
            first_occurrence(chars@, pat@, from as int) == first_occurrence(
                chars@,
                pat@,
                i as int,
            ),
        decreases last + 1 - i,
    {
        if has_at(chars, i, pat) {
            return Some(i);
        }
        i += 1;
    }
    None
}

/// Occurrences in the part of `s` from `p` on are those of `s`, moved by `p`.
pub proof fn lemma_first_occurrence_in_suffix(s: Seq<char>, pat: Seq<char>, p: int)
    requires
        0 <= p <= s.len(),
    ensures
        first_occurrence(s.subrange(p, s.len() as int), pat, 0) == match first_occurrence(
            s,
            pat,
            p,
        ) {
            Some(i) => Some(i - p),
            None => None,
        },
{
    let rest = s.subrange(p, s.len() as int);
    assert forall|j: int| 0 <= j implies occurs_at(rest, j, pat) == occurs_at(s, j + p, pat) by {
        if j + pat.len() <= rest.len() {
            assert(rest.subrange(j, j + pat.len()) == s.subrange(j + p, j + p + pat.len()));
        }
    }
    lemma_first_occurrence(s, pat, p);
    lemma_first_occurrence(rest, pat, 0);
    match first_occurrence(s, pat, p) {
        Some(i) => {
            assert(occurs_at(rest, i - p, pat));
            assert forall|j: int| 0 <= j < i - p implies !occurs_at(rest, j, pat) by {
                assert(!occurs_at(s, j + p, pat));
            }
            lemma_first_occurrence_is(rest, pat, 0, i - p);
        },
        None => {
            if pat.len() > 0 {
                match first_occurrence(rest, pat, 0) {
                    Some(k) => {
                        assert(occurs_at(s, k + p, pat));
                    },
                    None => {},
                }
            }
        },
    }
}

/// `s` without the white space at its two ends.
pub fn trimmed<'a>(s: &'a str) -> (r: &'a str)
    ensures
        r@ == trim(s@),
{
    let chars = chars_of(s);
    let mut a: usize = 0;
    while a < chars.len() && is_space_char(chars[a])
        invariant
            a <= chars.len(),
            skip_spaces(chars@, 0) == skip_spaces(chars@, a as int),
        decreases chars.len() - a,
    {
        a += 1;
    }
    let mut b: usize = chars.len();
    while a < b && is_space_char(chars[b - 1])
        invariant
            a <= b <= chars.len(),
            a == trim_start(chars@),
            trim_end(chars@) == skip_spaces_back(chars@, a as int, b as int),
        decreases b,
    {
        b -= 1;
    }
    s.substring_char(a, b)
}

/// The pieces of `text` between the occurrences of `sep`, taken from the left.
pub fn split<'a>(text: &'a str, sep: &str) -> (parts: Vec<&'a str>)
    ensures
        slices_of(parts@) == split_on(text@, sep@),
        parts.len() >= 1,
{
    let chars = chars_of(text);
    let pat = chars_of(sep);
    let mut parts: Vec<&'a str> = Vec::new();
    let mut pos: usize = 0;
    proof {
        assert(chars@.subrange(0, chars.len() as int) == chars@);
        assert(slices_of(parts@) + split_on(chars@, pat@) == split_on(chars@, pat@));
    }
    loop
        invariant
            chars@ == text@,
            pat@ == sep@,
            pos <= chars.len(),
            slices_of(parts@) + split_on(chars@.subrange(pos as int, chars.len() as int), pat@)
                == split_on(chars@, pat@),
        decreases chars.len() - pos,
    {
        let ghost rest = chars@.subrange(pos as int, chars.len() as int);
        let ghost before = slices_of(parts@);
        proof {
            lemma_first_occurrence_in_suffix(chars@, pat@, pos as int);
            lemma_first_occurrence(chars@, pat@, pos as int);
        }
        match find(&chars, &pat, pos) {
            Some(i) => {
                let piece = text.substring_char(pos, i);
                parts.push(piece);
                proof {
                    assert(rest.subrange(0, i - pos) == piece@);
                    assert(rest.subrange(i - pos + pat.len(), rest.len() as int)
                        == chars@.subrange(i + pat.len(), chars.len() as int));
                    assert(slices_of(parts@) == before + seq![piece@]);
                }
                pos = i + pat.len();
            },
            None => {
                let piece = text.substring_char(pos, chars.len());
                parts.push(piece);
                proof {
                    assert(slices_of(parts@) == before + seq![piece@]);
                    assert(chars@ == chars@.subrange(0, chars.len() as int));
                }
                return parts;
            },
        }
    }
}

/// Whether `pat` stands somewhere in `text`.
pub fn contains(text: &str, pat: &str) -> (r: bool)
    ensures
        r == holds(text@, pat@),
{
    let chars = chars_of(text);
    let p = chars_of(pat);
    p.len() == 0 || find(&chars, &p, 0).is_some()
}

/// Whether `text` begins with `pat`.
pub fn starts_with(text: &str, pat: &str) -> (r: bool)
    ensures
        r == occurs_at(text@, 0, pat@),
{
    let chars = chars_of(text);
    let p = chars_of(pat);
    has_at(&chars, 0, &p)
}

/// Whether `text` ends with `pat`.
pub fn ends_with(text: &str, pat: &str) -> (r: bool)
    ensures
        r == occurs_at(text@, text@.len() - pat@.len(), pat@),
{
    let chars = chars_of(text);
    let p = chars_of(pat);
    p.len() <= chars.len() && has_at(&chars, chars.len() - p.len(), &p)
}

/// The lines of `text` as they stand.
pub fn lines_as_they_stand<'a>(text: &'a str) -> (out: Vec<&'a str>)
    ensures
        slices_of(out@) == raw_lines(text@),
{
    let pieces = split(text, "\n");
    let ghost all = slices_of(pieces@);
    let mut out: Vec<&'a str> = Vec::new();
    let last = pieces.len() - 1;
    let mut i: usize = 0;
    while i < last
        invariant
            i <= last == pieces.len() - 1,
            all == slices_of(pieces@),
            slices_of(out@) == all.drop_last().map_values(|l: Seq<char>| strip_return(l)).take(
                i as int,
            ),
        decreases last - i,
    {
        let ghost before = slices_of(out@);
        let ghost ended = all.drop_last().map_values(|l: Seq<char>| strip_return(l));
        let piece = pieces[i];
        let count = piece.unicode_len();
        let line = if count > 0 && piece.get_char(count - 1) == '\r' {
            piece.substring_char(0, count - 1)
        } else {
            piece
        };
        out.push(line);
        proof {
            assert(all.drop_last()[i as int] == pieces@[i as int]@);
            assert(slices_of(out@) == before.push(line@));
            assert(ended.take(i + 1) == ended.take(i as int).push(ended[i as int]));
        }
        i += 1;
    }
    proof {
        let ended = all.drop_last().map_values(|l: Seq<char>| strip_return(l));
        assert(ended.take(i as int) == ended);
        assert(all.last() == pieces@[last as int]@);
    }
    if !pieces[last].is_empty() {
        let ghost before = slices_of(out@);
        out.push(pieces[last]);
        assert(slices_of(out@) == before.push(pieces@[last as int]@));
    }
    out
}

/// The lines of `text`, each trimmed.
pub fn lines<'a>(text: &'a str) -> (out: Vec<&'a str>)
    ensures
        slices_of(out@) == lines_of(text@),
        out.len() >= 1,
{
    let pieces = split(trimmed(text), "\n");
    let mut out: Vec<&'a str> = Vec::new();
    let mut i: usize = 0;
    while i < pieces.len()
        invariant
            i <= pieces.len(),
            slices_of(pieces@) == split_on(trim(text@), "\n"@),
            slices_of(out@) == slices_of(pieces@).take(i as int).map_values(
                |l: Seq<char>| trim(l),
            ),
        decreases pieces.len() - i,
    {
        let ghost before = slices_of(out@);
        let line = trimmed(pieces[i]);
        out.push(line);
        proof {
            assert(slices_of(pieces@)[i as int] == pieces@[i as int]@);
            assert(slices_of(out@) == before.push(line@));
            assert(slices_of(pieces@).take(i + 1) == slices_of(pieces@).take(i as int).push(
                pieces@[i as int]@,
            ));
        }
        i += 1;
    }
    proof {
        assert(slices_of(pieces@).take(i as int) == slices_of(pieces@));
    }
    out
}

} // verus!

//! Character-level text operations: the parts of `str` that the rest of the
//! library needs, each stated over the character sequence of the text.
use vstd::prelude::*;

verus! {

// ---------------------------------------------------------------------------
// Specifications
// ---------------------------------------------------------------------------

/// Unicode `White_Space`, which is what `char::is_whitespace` tests.
pub open spec fn is_white(c: char) -> bool {
    let u = c as u32;
    ||| 0x9 <= u <= 0xd
    ||| u == 0x20
    ||| u == 0x85
    ||| u == 0xa0
    ||| u == 0x1680
    ||| 0x2000 <= u <= 0x200a
    ||| u == 0x2028
    ||| u == 0x2029
    ||| u == 0x202f
    ||| u == 0x205f
    ||| u == 0x3000
}

/// `s` with its leading white space removed (`str::trim_start`).
pub open spec fn trim_start_spec(s: Seq<char>) -> Seq<char>
    decreases s.len(),
{
    if s.len() > 0 && is_white(s[0]) {
        trim_start_spec(s.drop_first())
    } else {
        s
    }
}

/// `s` with its trailing white space removed (`str::trim_end`).
pub open spec fn trim_end_spec(s: Seq<char>) -> Seq<char>
    decreases s.len(),
{
    if s.len() > 0 && is_white(s.last()) {
        trim_end_spec(s.drop_last())
    } else {
        s
    }
}

/// `s` with leading and trailing white space removed (`str::trim`).
pub open spec fn trim_spec(s: Seq<char>) -> Seq<char> {
    trim_end_spec(trim_start_spec(s))
}

/// Whether `s` begins with `prefix`.
pub open spec fn starts_with_spec(s: Seq<char>, prefix: Seq<char>) -> bool {
    prefix.len() <= s.len() && s.subrange(0, prefix.len() as int) == prefix
}

/// Whether `sep` occurs in `s` at position `i`.
pub open spec fn occurs_at(s: Seq<char>, sep: Seq<char>, i: int) -> bool {
    0 <= i && i + sep.len() <= s.len() && s.subrange(i, i + sep.len()) == sep
}

/// The first position at or after `i` where the non-empty `sep` occurs in `s`,
/// or -1 where there is none.
pub open spec fn find_from(s: Seq<char>, sep: Seq<char>, i: int) -> int
    decreases s.len() - i,
{
    if i < 0 || sep.len() == 0 || i + sep.len() > s.len() {
        -1
    } else if occurs_at(s, sep, i) {
        i
    } else {
        find_from(s, sep, i + 1)
    }
}

/// The pieces of `s` from position `i` on, cut at each leftmost occurrence
/// of the non-empty `sep`.
pub open spec fn split_from(s: Seq<char>, sep: Seq<char>, i: int) -> Seq<Seq<char>>
    decreases s.len() - i,
{
    let j = find_from(s, sep, i);
    if 0 <= i <= j && sep.len() > 0 && j + sep.len() <= s.len() {
        seq![s.subrange(i, j)].add(split_from(s, sep, j + sep.len()))
    } else {
        seq![s.subrange(i, s.len() as int)]
    }
}

/// `str::split` with a non-empty string pattern.
pub open spec fn split_spec(s: Seq<char>, sep: Seq<char>) -> Seq<Seq<char>> {
    split_from(s, sep, 0)
}

/// The pieces of `parts` joined with `sep` between them (`[String]::join`).
pub open spec fn join_spec(parts: Seq<Seq<char>>, sep: Seq<char>) -> Seq<char>
    decreases parts.len(),
{
    if parts.len() == 0 {
        Seq::empty()
    } else if parts.len() == 1 {
        parts[0]
    } else {
        join_spec(parts.drop_last(), sep) + sep + parts.last()
    }
}

/// `str::replace` with a non-empty pattern: every leftmost, non-overlapping
/// occurrence of `pat` in `s` replaced with `rep`.
pub open spec fn replace_spec(s: Seq<char>, pat: Seq<char>, rep: Seq<char>) -> Seq<char> {
    join_spec(split_spec(s, pat), rep)
}

/// A line as `str::lines` yields it: without its `\n`, and without a `\r`
/// that stood just before that `\n`.
pub open spec fn strip_cr(line: Seq<char>) -> Seq<char> {
    if line.len() > 0 && line.last() == '\r' {
        line.drop_last()
    } else {
        line
    }
}

/// `str::lines`: the text cut at each `\n`; a final piece is a line only when
/// it is not empty, and it keeps any `\r`.
pub open spec fn lines_spec(s: Seq<char>) -> Seq<Seq<char>> {
    let pieces = split_spec(s, seq!['\n']);
    let terminated = pieces.drop_last().map_values(|l: Seq<char>| strip_cr(l));
    if pieces.last().len() > 0 {
        terminated.push(pieces.last())
    } else {
        terminated
    }
}

/// `str::split_whitespace`: the maximal runs of non-white characters, in order.
pub open spec fn words_spec(s: Seq<char>) -> Seq<Seq<char>>
    decreases s.len(),
{
    if s.len() == 0 {
        Seq::empty()
    } else {
        let w = words_spec(s.drop_last());
        let c = s.last();
        if is_white(c) {
            w
        } else if s.len() >= 2 && !is_white(s[s.len() - 2]) && w.len() > 0 {
            w.update(w.len() - 1, w.last().push(c))
        } else {
            w.push(seq![c])
        }
    }
}

/// An ASCII upper-case letter mapped to lower case; any other character kept.
pub open spec fn ascii_lower(c: char) -> char {
    if 'A' <= c && c <= 'Z' {
        ((c as u32) + 32) as char
    } else {
        c
    }
}

/// `str::eq_ignore_ascii_case`.
pub open spec fn eq_ignore_ascii_case_spec(a: Seq<char>, b: Seq<char>) -> bool {
    a.len() == b.len() && forall|i: int| 0 <= i < a.len() ==> ascii_lower(a[i]) == ascii_lower(b[i])
}

/// The number of bytes that UTF-8 takes for `c`.
pub open spec fn utf8_width(c: char) -> nat {
    let u = c as u32;
    if u < 0x80 {
        1
    } else if u < 0x800 {
        2
    } else if u < 0x10000 {
        3
    } else {
        4
    }
}

/// The length in bytes of the UTF-8 encoding of `s` (`str::len`).
pub open spec fn byte_len(s: Seq<char>) -> nat
    decreases s.len(),
{
    if s.len() == 0 {
        0
    } else {
        byte_len(s.drop_last()) + utf8_width(s.last())
    }
}

/// What `str::to_lowercase` returns for a text.
pub uninterp spec fn lowercase_of(s: Seq<char>) -> Seq<char>;

/// What `str::to_uppercase` returns for a text.
pub uninterp spec fn uppercase_of(s: Seq<char>) -> Seq<char>;

/// Each text of `v` by its characters.
pub open spec fn texts(v: Seq<String>) -> Seq<Seq<char>> {
    v.map_values(|x: String| x@)
}

// ---------------------------------------------------------------------------
// Lemmas
// ---------------------------------------------------------------------------

/// `find_from` finds a real occurrence, no earlier than where it starts.
pub proof fn lemma_find_from(s: Seq<char>, sep: Seq<char>, i: int)
    requires
        0 <= i,
    ensures
        find_from(s, sep, i) == -1 || (i <= find_from(s, sep, i) && occurs_at(s, sep, find_from(s, sep, i))),
        find_from(s, sep, i) != -1 ==> sep.len() > 0,
        forall|k: int| i <= k && (find_from(s, sep, i) == -1 || k < find_from(s, sep, i)) ==> !occurs_at(s, sep, k) || sep.len() == 0,
    decreases s.len() - i,
{
    if i < 0 || sep.len() == 0 || i + sep.len() > s.len() {
    } else if occurs_at(s, sep, i) {
    } else {
        lemma_find_from(s, sep, i + 1);
    }
}

/// Splitting never yields an empty list of pieces.
pub proof fn lemma_split_nonempty(s: Seq<char>, sep: Seq<char>, i: int)
    ensures
        split_from(s, sep, i).len() >= 1,
    decreases s.len() - i,
{
    let j = find_from(s, sep, i);
    if 0 <= i <= j && sep.len() > 0 && j + sep.len() <= s.len() {
        lemma_split_nonempty(s, sep, j + sep.len());
    }
}

/// Joining after appending one piece appends the separator and that piece.
pub proof fn lemma_join_push(parts: Seq<Seq<char>>, sep: Seq<char>, p: Seq<char>)
    ensures
        join_spec(parts.push(p), sep) == if parts.len() == 0 { p } else { join_spec(parts, sep) + sep + p },
{
    assert(parts.push(p).drop_last() =~= parts);
}

/// Looking for `sep` past a prefix `x` is looking for it in what follows `x`.
pub proof fn lemma_find_from_shift(x: Seq<char>, y: Seq<char>, sep: Seq<char>, i: int)
    requires
        0 <= i,
    ensures
        find_from(x + y, sep, x.len() + i) == if find_from(y, sep, i) == -1 {
            -1
        } else {
            x.len() + find_from(y, sep, i)
        },
    decreases y.len() - i,
{
    let s = x + y;
    if sep.len() == 0 || i + sep.len() > y.len() {
    } else {
        assert(s.subrange(x.len() + i, x.len() + i + sep.len()) =~= y.subrange(i, i + sep.len()));
        if !occurs_at(y, sep, i) {
            lemma_find_from_shift(x, y, sep, i + 1);
            assert(x.len() + (i + 1) == x.len() + i + 1);
        }
    }
}

/// Splitting past a prefix `x` splits what follows `x`.
pub proof fn lemma_split_from_shift(x: Seq<char>, y: Seq<char>, sep: Seq<char>, i: int)
    requires
        0 <= i <= y.len(),
    ensures
        split_from(x + y, sep, x.len() + i) == split_from(y, sep, i),
    decreases y.len() - i,
{
    let s = x + y;
    lemma_find_from_shift(x, y, sep, i);
    lemma_find_from(y, sep, i);
    let j = find_from(y, sep, i);
    if j != -1 {
        assert(s.subrange(x.len() + i, x.len() + j) =~= y.subrange(i, j));
        lemma_split_from_shift(x, y, sep, j + sep.len());
        assert(x.len() + j + sep.len() == x.len() + (j + sep.len()));
    } else {
        assert(s.subrange(x.len() + i, s.len() as int) =~= y.subrange(i, y.len() as int));
    }
}

/// The first `c` at or after `i` is at `n`, where `c` stands at `n` and
/// nowhere from `i` to `n`.
proof fn lemma_find_char_at(s: Seq<char>, c: char, i: int, n: int)
    requires
        0 <= i <= n < s.len(),
        s[n] == c,
        forall|k: int| i <= k < n ==> s[k] != c,
    ensures
        find_from(s, seq![c], i) == n,
    decreases n - i,
{
    assert(s.subrange(i, i + 1)[0] == s[i]);
    if i < n {
        assert(!occurs_at(s, seq![c], i));
        lemma_find_char_at(s, c, i + 1, n);
    } else {
        assert(s.subrange(i, i + 1) =~= seq![c]);
    }
}

/// There is no `c` at or after `i` where none stands there.
proof fn lemma_find_char_none(s: Seq<char>, c: char, i: int)
    requires
        0 <= i,
        forall|k: int| i <= k < s.len() ==> s[k] != c,
    ensures
        find_from(s, seq![c], i) == -1,
    decreases s.len() - i,
{
    if i + 1 <= s.len() {
        assert(s.subrange(i, i + 1)[0] == s[i]);
        assert(!occurs_at(s, seq![c], i));
        lemma_find_char_none(s, c, i + 1);
    }
}

/// A text cut at a character that it does not hold is one piece.
pub proof fn lemma_split_char_none(s: Seq<char>, c: char)
    requires
        forall|k: int| 0 <= k < s.len() ==> s[k] != c,
    ensures
        split_spec(s, seq![c]) == seq![s],
{
    lemma_find_char_none(s, c, 0);
    assert(s.subrange(0, s.len() as int) =~= s);
}

/// Cutting `a`, `c`, `b` at `c`, where `a` holds no `c`: the piece `a`, then
/// the pieces of `b`.
pub proof fn lemma_split_char_first(a: Seq<char>, c: char, b: Seq<char>)
    requires
        forall|k: int| 0 <= k < a.len() ==> a[k] != c,
    ensures
        split_spec(a + seq![c] + b, seq![c]) == seq![a] + split_spec(b, seq![c]),
{
    let s = a + seq![c] + b;
    assert forall|k: int| 0 <= k < a.len() implies s[k] != c by {
        assert(s[k] == a[k]);
    }
    assert(s[a.len() as int] == c);
    lemma_find_char_at(s, c, 0, a.len() as int);
    assert(s.subrange(0, a.len() as int) =~= a);
    lemma_split_from_shift(a + seq![c], b, seq![c], 0);
    assert(s =~= (a + seq![c]) + b);
}

/// Joining a first piece before others puts the separator between them.
pub proof fn lemma_join_prepend(p: Seq<char>, rest: Seq<Seq<char>>, sep: Seq<char>)
    requires
        rest.len() > 0,
    ensures
        join_spec(seq![p] + rest, sep) == p + sep + join_spec(rest, sep),
    decreases rest.len(),
{
    let all = seq![p] + rest;
    if rest.len() == 1 {
        assert(all.drop_last() =~= seq![p]);
        assert(all.last() == rest[0]);
        assert(join_spec(seq![p], sep) == p);
        assert(join_spec(rest, sep) == rest[0]);
    } else {
        lemma_join_prepend(p, rest.drop_last(), sep);
        assert(all.drop_last() =~= seq![p] + rest.drop_last());
        assert(all.last() == rest.last());
        assert(join_spec(rest, sep) == join_spec(rest.drop_last(), sep) + sep + rest.last());
        assert(join_spec(all, sep) == join_spec(seq![p] + rest.drop_last(), sep) + sep + rest.last());
        assert(join_spec(all, sep) =~= p + sep + (join_spec(rest.drop_last(), sep) + sep + rest.last()));
    }
}

/// Pieces that do not hold `c`, joined with `c`, split at `c` into those
/// pieces again.
pub proof fn lemma_split_join(parts: Seq<Seq<char>>, c: char)
    requires
        parts.len() > 0,
        forall|i: int, k: int| 0 <= i < parts.len() && 0 <= k < parts[i].len() ==> parts[i][k] != c,
    ensures
        split_spec(join_spec(parts, seq![c]), seq![c]) == parts,
    decreases parts.len(),
{
    let first = parts[0];
    let rest = parts.drop_first();
    assert forall|k: int| 0 <= k < first.len() implies first[k] != c by {
        assert(parts[0][k] != c);
    }
    if parts.len() == 1 {
        lemma_split_char_none(first, c);
    } else {
        assert forall|i: int, k: int| 0 <= i < rest.len() && 0 <= k < rest[i].len() implies rest[i][k] != c by {
            assert(rest[i] == parts[i + 1]);
        }
        lemma_split_join(rest, c);
        assert(parts =~= seq![first] + rest);
        lemma_join_prepend(first, rest, seq![c]);
        lemma_split_char_first(first, c, join_spec(rest, seq![c]));
        assert(seq![first] + rest =~= parts);
    }
}

/// Lines without line breaks, none but the last ending in `\r` and the last
/// not empty, joined by line breaks: `str::lines` gives those lines back.
pub proof fn lemma_lines_join(ls: Seq<Seq<char>>)
    requires
        ls.len() > 0,
        forall|i: int, k: int| 0 <= i < ls.len() && 0 <= k < ls[i].len() ==> ls[i][k] != '\n',
        forall|i: int| 0 <= i < ls.len() - 1 ==> strip_cr(#[trigger] ls[i]) == ls[i],
        ls.last().len() > 0,
    ensures
        lines_spec(join_spec(ls, seq!['\n'])) == ls,
{
    lemma_split_join(ls, '\n');
    assert(ls.drop_last().map_values(|l: Seq<char>| strip_cr(l)) =~= ls.drop_last());
    assert(ls.drop_last().push(ls.last()) =~= ls);
}

/// Joining the pieces of a split with the separator gives the text back.
pub proof fn lemma_join_split(s: Seq<char>, sep: Seq<char>, i: int)
    requires
        0 <= i <= s.len(),
        sep.len() > 0,
    ensures
        join_spec(split_from(s, sep, i), sep) == s.subrange(i, s.len() as int),
    decreases s.len() - i,
{
    lemma_find_from(s, sep, i);
    let j = find_from(s, sep, i);
    if j != -1 {
        let rest = split_from(s, sep, j + sep.len());
        lemma_join_split(s, sep, j + sep.len());
        lemma_split_nonempty(s, sep, j + sep.len());
        lemma_join_prepend(s.subrange(i, j), rest, sep);
        assert(s.subrange(i, s.len() as int) =~= s.subrange(i, j) + s.subrange(j, j + sep.len()) + s.subrange(
            j + sep.len(),
            s.len() as int,
        ));
    }
}

// ---------------------------------------------------------------------------
// Conversions
// ---------------------------------------------------------------------------

/// Appends one character to a string (std's `String::push`).
#[verifier::external_body]
pub(crate) fn push_char(s: &mut String, c: char)
    ensures
        final(s)@ == old(s)@.push(c),
{
    s.push(c);
}

/// The characters of `s`, in order.
pub fn chars_of(s: &str) -> (res: Vec<char>)
    ensures
        res@ == s@,
{
    let mut res: Vec<char> = Vec::new();
    for c in it: s.chars()
        invariant
            res@ == it.seq().take(it.index() as int),
    {
        res.push(c);
    }
    res
}

/// The string made of `v[from..to]`.
pub fn string_from_range(v: &[char], from: usize, to: usize) -> (res: String)
    requires
        from <= to <= v@.len(),
    ensures
        res@ == v@.subrange(from as int, to as int),
{
    let mut res = String::new();
    let mut i: usize = from;
    while i < to
        invariant
            from <= i <= to <= v@.len(),
            res@ == v@.subrange(from as int, i as int),
        decreases to - i,
    {
        push_char(&mut res, v[i]);
        assert(v@.subrange(from as int, i + 1) =~= v@.subrange(from as int, i as int).push(v@[i as int]));
        i = i + 1;
    }
    res
}

/// The string whose characters are `v`.
pub fn string_of(v: &[char]) -> (res: String)
    ensures
        res@ == v@,
{
    let r = string_from_range(v, 0, v.len());
    assert(v@.subrange(0, v@.len() as int) =~= v@);
    r
}

/// `a` followed by `b`.
pub fn concat(a: &str, b: &str) -> (res: String)
    ensures
        res@ == a@ + b@,
{
    let mut r = String::from_str(a);
    r.append(b);
    r
}

/// `a`, `b` and `c` one after another.
pub fn concat3(a: &str, b: &str, c: &str) -> (res: String)
    ensures
        res@ == a@ + b@ + c@,
{
    let mut r = String::from_str(a);
    r.append(b);
    r.append(c);
    r
}

/// Whether two texts are equal.
pub fn text_eq(a: &str, b: &str) -> (res: bool)
    ensures
        res == (a@ == b@),
{
    let x = chars_of(a);
    let y = chars_of(b);
    if x.len() != y.len() {
        return false;
    }
    let mut i: usize = 0;
    while i < x.len()
        invariant
            x@ == a@,
            y@ == b@,
            x@.len() == y@.len(),
            i <= x@.len(),
            forall|k: int| 0 <= k < i ==> x@[k] == y@[k],
        decreases x@.len() - i,
    {
        if x[i] != y[i] {
            return false;
        }
        i = i + 1;
    }
    assert(x@ =~= y@);
    true
}

// ---------------------------------------------------------------------------
// Predicates and simple scans
// ---------------------------------------------------------------------------

/// `char::is_whitespace`.
pub fn is_whitespace(c: char) -> (res: bool)
    ensures
        res == is_white(c),
{
    let u = c as u32;
    (0x9 <= u && u <= 0xd) || u == 0x20 || u == 0x85 || u == 0xa0 || u == 0x1680 || (0x2000 <= u
        && u <= 0x200a) || u == 0x2028 || u == 0x2029 || u == 0x202f || u == 0x205f || u == 0x3000
}

/// Whether `s` begins with `prefix` (`str::starts_with`).
pub fn starts_with(s: &str, prefix: &str) -> (res: bool)
    ensures
        res == starts_with_spec(s@, prefix@),
{
    let a = chars_of(s);
    let b = chars_of(prefix);
    if b.len() > a.len() {
        return false;
    }
    let mut i: usize = 0;
    while i < b.len()
        invariant
            a@ == s@,
            b@ == prefix@,
            b@.len() <= a@.len(),
            i <= b@.len(),
            forall|k: int| 0 <= k < i ==> a@[k] == b@[k],
        decreases b@.len() - i,
    {
        if a[i] != b[i] {
            assert(s@.subrange(0, prefix@.len() as int)[i as int] != prefix@[i as int]);
            return false;
        }
        i = i + 1;
    }
    assert(s@.subrange(0, prefix@.len() as int) =~= prefix@);
    true
}

/// Whether `s` is empty or white space only (`s.trim().is_empty()`).
pub fn is_blank(s: &str) -> (res: bool)
    ensures
        res == (trim_spec(s@).len() == 0),
{
    let t = trim(s);
    t.unicode_len() == 0
}

/// `str::eq_ignore_ascii_case`.
pub fn eq_ignore_ascii_case(a: &str, b: &str) -> (res: bool)
    ensures
        res == eq_ignore_ascii_case_spec(a@, b@),
{
    let x = chars_of(a);
    let y = chars_of(b);
    if x.len() != y.len() {
        return false;
    }
    let mut i: usize = 0;
    while i < x.len()
        invariant
            x@ == a@,
            y@ == b@,
            x@.len() == y@.len(),
            i <= x@.len(),
            forall|k: int| 0 <= k < i ==> ascii_lower(x@[k]) == ascii_lower(y@[k]),
        decreases x@.len() - i,
    {
        if to_ascii_lower(x[i]) != to_ascii_lower(y[i]) {
            return false;
        }
        i = i + 1;
    }
    true
}

/// `char::to_ascii_lowercase`.
pub fn to_ascii_lower(c: char) -> (res: char)
    ensures
        res == ascii_lower(c),
{
    if 'A' <= c && c <= 'Z' {
        let u = (c as u32) + 32;
        assert(0x61 <= u <= 0x7a);
        char_from_ascii(u)
    } else {
        c
    }
}

/// The character with the ASCII code `u`.
#[verifier::external_body]
fn char_from_ascii(u: u32) -> (res: char)
    requires
        u < 0x80,
    ensures
        res == u as char,
{
    char::from_u32(u).unwrap()
}

/// The number of UTF-8 bytes of `c` (`char::len_utf8`).
pub fn char_width(c: char) -> (res: usize)
    ensures
        res == utf8_width(c),
{
    let u = c as u32;
    if u < 0x80 {
        1
    } else if u < 0x800 {
        2
    } else if u < 0x10000 {
        3
    } else {
        4
    }
}

/// The length of `s` in UTF-8 bytes (`str::len`).
pub fn text_byte_len(s: &str) -> (res: usize)
    requires
        s@.len() * 4 <= usize::MAX,
    ensures
        res == byte_len(s@),
{
    let v = chars_of(s);
    let mut n: usize = 0;
    let mut i: usize = 0;
    while i < v.len()
        invariant
            v@ == s@,
            v@.len() * 4 <= usize::MAX,
            i <= v@.len(),
            n == byte_len(v@.take(i as int)),
            n <= 4 * i,
        decreases v@.len() - i,
    {
        assert(v@.take(i + 1).drop_last() =~= v@.take(i as int));
        n = n + char_width(v[i]);
        i = i + 1;
    }
    assert(v@.take(v@.len() as int) =~= v@);
    n
}

// ---------------------------------------------------------------------------
// Trimming
// ---------------------------------------------------------------------------

/// Index of the first non-white character of `v`, and the trimmed rest.
fn first_non_white(v: &Vec<char>) -> (res: usize)
    ensures
        res <= v@.len(),
        trim_start_spec(v@) == v@.subrange(res as int, v@.len() as int),
{
    let mut i: usize = 0;
    assert(v@.subrange(0, v@.len() as int) =~= v@);
    while i < v.len() && is_whitespace(v[i])
        invariant
            i <= v@.len(),
            trim_start_spec(v@) == trim_start_spec(v@.subrange(i as int, v@.len() as int)),
        decreases v@.len() - i,
    {
        assert(v@.subrange(i as int, v@.len() as int).drop_first() =~= v@.subrange(i + 1, v@.len() as int));
        i = i + 1;
    }
    i
}

/// One past the last non-white character of `v[..to]`.
fn last_non_white(v: &Vec<char>, from: usize, to: usize) -> (res: usize)
    requires
        from <= to <= v@.len(),
    ensures
        from <= res <= to,
        trim_end_spec(v@.subrange(from as int, to as int)) == v@.subrange(from as int, res as int),
{
    let mut j: usize = to;
    while j > from && is_whitespace(v[j - 1])
        invariant
            from <= j <= to <= v@.len(),
            trim_end_spec(v@.subrange(from as int, to as int)) == trim_end_spec(v@.subrange(from as int, j as int)),
        decreases j - from,
    {
        assert(v@.subrange(from as int, j as int).drop_last() =~= v@.subrange(from as int, j - 1));
        j = j - 1;
    }
    j
}

/// `str::trim_start`.
pub fn trim_start(s: &str) -> (res: String)
    ensures
        res@ == trim_start_spec(s@),
{
    let v = chars_of(s);
    let i = first_non_white(&v);
    string_from_range(&v, i, v.len())
}

/// `str::trim_end`.
pub fn trim_end(s: &str) -> (res: String)
    ensures
        res@ == trim_end_spec(s@),
{
    let v = chars_of(s);
    let j = last_non_white(&v, 0, v.len());
    assert(v@.subrange(0, v@.len() as int) =~= v@);
    string_from_range(&v, 0, j)
}

/// `str::trim`.
pub fn trim(s: &str) -> (res: String)
    ensures
        res@ == trim_spec(s@),
{
    let v = chars_of(s);
    let i = first_non_white(&v);
    let j = last_non_white(&v, i, v.len());
    string_from_range(&v, i, j)
}

// ---------------------------------------------------------------------------
// Splitting and joining
// ---------------------------------------------------------------------------

/// Whether `sep` occurs in `v` at `i`.
fn occurs_at_exec(v: &Vec<char>, sep: &Vec<char>, i: usize) -> (res: bool)
    requires
        i + sep@.len() <= v@.len(),
    ensures
        res == occurs_at(v@, sep@, i as int),
{
    let mut k: usize = 0;
    while k < sep.len()
        invariant
            i + sep@.len() <= v@.len(),
            k <= sep@.len(),
            i + k <= v@.len(),
            forall|m: int| 0 <= m < k ==> v@[i + m] == sep@[m],
        decreases sep@.len() - k,
    {
        assert(i + k < v.len());
        if v[i + k] != sep[k] {
            assert(v@.subrange(i as int, i + sep@.len())[k as int] != sep@[k as int]);
            return false;
        }
        k = k + 1;
    }
    assert(v@.subrange(i as int, i + sep@.len()) =~= sep@);
    true
}

/// `str::split` with a non-empty pattern: the pieces of `s` between the
/// leftmost, non-overlapping occurrences of `sep`.
pub fn split(s: &str, sep: &str) -> (res: Vec<String>)
    requires
        sep@.len() > 0,
    ensures
        texts(res@) == split_spec(s@, sep@),
{
    let v = chars_of(s);
    let p = chars_of(sep);
    let n = v.len();
    let m = p.len();
    let mut parts: Vec<String> = Vec::new();
    let mut start: usize = 0;
    let mut i: usize = 0;
    while i < n && n - i >= m
        invariant
            v@ == s@,
            p@ == sep@,
            n == v@.len(),
            m == p@.len(),
            m > 0,
            start <= i <= n,
            find_from(v@, p@, start as int) == find_from(v@, p@, i as int),
            split_spec(v@, p@) == texts(parts@) + split_from(v@, p@, start as int),
        decreases n - i,
    {
        if occurs_at_exec(&v, &p, i) {
            proof {
                lemma_find_from(v@, p@, start as int);
            }
            let piece = string_from_range(&v, start, i);
            let ghost before = parts@;
            parts.push(piece);
            assert(texts(parts@) =~= texts(before).push(v@.subrange(start as int, i as int)));
            assert(split_from(v@, p@, start as int) == seq![v@.subrange(start as int, i as int)].add(
                split_from(v@, p@, i + m)));
            assert(texts(before) + split_from(v@, p@, start as int) =~= texts(parts@) + split_from(v@, p@, i + m));
            start = i + m;
            i = i + m;
        } else {
            i = i + 1;
        }
    }
    let ghost before = parts@;
    let last = string_from_range(&v, start, n);
    parts.push(last);
    assert(find_from(v@, p@, i as int) == -1);
    assert(texts(parts@) =~= texts(before).push(v@.subrange(start as int, n as int)));
    parts
}

/// `[String]::join`: the pieces with `sep` between them.
pub fn join(parts: &[String], sep: &str) -> (res: String)
    ensures
        res@ == join_spec(texts(parts@), sep@),
{
    let mut res = String::new();
    let mut i: usize = 0;
    while i < parts.len()
        invariant
            i <= parts@.len(),
            res@ == join_spec(texts(parts@.take(i as int)), sep@),
        decreases parts@.len() - i,
    {
        proof {
            lemma_join_push(texts(parts@.take(i as int)), sep@, parts@[i as int]@);
            assert(texts(parts@.take(i + 1)) =~= texts(parts@.take(i as int)).push(parts@[i as int]@));
        }
        if i > 0 {
            res.append(sep);
        }
        res.append(parts[i].as_str());
        i = i + 1;
    }
    assert(parts@.take(parts@.len() as int) =~= parts@);
    res
}

/// `str::replace` with a non-empty pattern.
pub fn replace(s: &str, pat: &str, rep: &str) -> (res: String)
    requires
        pat@.len() > 0,
    ensures
        res@ == replace_spec(s@, pat@, rep@),
{
    let pieces = split(s, pat);
    join(pieces.as_slice(), rep)
}

/// `str::lines`.
pub fn lines(s: &str) -> (res: Vec<String>)
    ensures
        texts(res@) == lines_spec(s@),
{
    proof {
        reveal_strlit("\n");
        assert("\n"@ =~= seq!['\n']);
        lemma_split_nonempty(s@, seq!['\n'], 0);
    }
    let pieces = split(s, "\n");
    let ghost ps = texts(pieces@);
    let k = pieces.len();
    let mut res: Vec<String> = Vec::new();
    let mut i: usize = 0;
    while i + 1 < k
        invariant
            k == pieces@.len(),
            k >= 1,
            ps == texts(pieces@),
            i + 1 <= k,
            texts(res@) == ps.drop_last().take(i as int).map_values(|l: Seq<char>| strip_cr(l)),
        decreases k - i,
    {
        let line = strip_trailing_cr(pieces[i].as_str());
        let ghost before = res@;
        res.push(line);
        assert(ps.drop_last().take(i + 1) =~= ps.drop_last().take(i as int).push(ps[i as int]));
        assert(ps[i as int] == pieces@[i as int]@);
        assert(texts(res@) =~= texts(before).push(strip_cr(ps[i as int])));
        assert(texts(res@) =~= ps.drop_last().take(i + 1).map_values(|l: Seq<char>| strip_cr(l)));
        i = i + 1;
    }
    assert(ps.drop_last().take(i as int) =~= ps.drop_last());
    let last = &pieces[k - 1];
    if last.unicode_len() > 0 {
        let ghost before = res@;
        res.push(last.clone());
        assert(texts(res@) =~= texts(before).push(ps.last()));
    }
    res
}

/// A line without a final `\r`.
fn strip_trailing_cr(s: &str) -> (res: String)
    ensures
        res@ == strip_cr(s@),
{
    let v = chars_of(s);
    if v.len() > 0 && v[v.len() - 1] == '\r' {
        string_from_range(&v, 0, v.len() - 1)
    } else {
        string_of(v.as_slice())
    }
}

/// `str::split_whitespace`.
pub fn split_whitespace(s: &str) -> (res: Vec<String>)
    ensures
        texts(res@) == words_spec(s@),
{
    let v = chars_of(s);
    let mut words: Vec<String> = Vec::new();
    let mut i: usize = 0;
    let mut start: usize = 0;
    let mut in_word = false;
    assert(v@.take(0) =~= Seq::<char>::empty());
    while i < v.len()
        invariant
            v@ == s@,
            i <= v@.len(),
            start <= i,
            in_word == (i > 0 && !is_white(v@[i - 1])),
            in_word ==> words_spec(v@.take(i as int)) == texts(words@).push(v@.subrange(start as int, i as int)),
            in_word ==> forall|k: int| start <= k < i ==> !is_white(#[trigger] v@[k]),
            !in_word ==> words_spec(v@.take(i as int)) == texts(words@),
        decreases v@.len() - i,
    {
        let c = v[i];
        let ghost pre = v@.take(i as int);
        assert(v@.take(i + 1).drop_last() =~= pre);
        assert(v@.take(i + 1).last() == c);
        if is_whitespace(c) {
            if in_word {
                let w = string_from_range(&v, start, i);
                words.push(w);
                assert(texts(words@) =~= words_spec(pre));
            }
            in_word = false;
        } else {
            if in_word {
                let ghost w = words_spec(pre);
                assert(v@.take(i + 1)[i - 1] == v@[i - 1]);
                assert(w.len() > 0);
                assert(v@.subrange(start as int, i + 1) =~= v@.subrange(start as int, i as int).push(c));
                assert(words_spec(v@.take(i + 1)) =~= texts(words@).push(v@.subrange(start as int, i + 1)));
            } else {
                start = i;
                if i > 0 {
                    assert(v@.take(i + 1)[i - 1] == v@[i - 1]);
                }
                assert(v@.subrange(start as int, i + 1) =~= seq![c]);
                assert(words_spec(v@.take(i + 1)) =~= texts(words@).push(v@.subrange(start as int, i + 1)));
            }
            in_word = true;
        }
        i = i + 1;
    }
    assert(v@.take(v@.len() as int) =~= v@);
    if in_word {
        let w = string_from_range(&v, start, v.len());
        let ghost before = words@;
        words.push(w);
        assert(texts(words@) =~= texts(before).push(v@.subrange(start as int, v@.len() as int)));
    }
    words
}

/// The position of the first `c` in `s`, if any (`str::find` with a `char`).
pub fn find_char(s: &str, c: char) -> (res: Option<usize>)
    ensures
        match res {
            Some(i) => i < s@.len() && s@[i as int] == c && forall|k: int| 0 <= k < i ==> s@[k] != c,
            None => forall|k: int| 0 <= k < s@.len() ==> s@[k] != c,
        },
{
    let v = chars_of(s);
    let mut i: usize = 0;
    while i < v.len()
        invariant
            v@ == s@,
            i <= v@.len(),
            forall|k: int| 0 <= k < i ==> v@[k] != c,
        decreases v@.len() - i,
    {
        if v[i] == c {
            return Some(i);
        }
        i = i + 1;
    }
    None
}

/// The characters of `s` from position `from` on.
pub fn skip_chars(s: &str, from: usize) -> (res: String)
    ensures
        res@ == if from <= s@.len() { s@.subrange(from as int, s@.len() as int) } else { Seq::empty() },
{
    let v = chars_of(s);
    if from <= v.len() {
        string_from_range(&v, from, v.len())
    } else {
        String::new()
    }
}

/// The first `to` characters of `s` (all of it where it is shorter).
pub fn take_chars(s: &str, to: usize) -> (res: String)
    ensures
        res@ == if to <= s@.len() { s@.subrange(0, to as int) } else { s@ },
{
    let v = chars_of(s);
    if to <= v.len() {
        string_from_range(&v, 0, to)
    } else {
        string_of(v.as_slice())
    }
}

// ---------------------------------------------------------------------------
// Case conversion
// ---------------------------------------------------------------------------

/// Whether every character of `s` is ASCII.
pub open spec fn all_ascii(s: Seq<char>) -> bool {
    forall|i: int| 0 <= i < s.len() ==> (s[i] as u32) < 0x80
}

/// An ASCII lower-case letter mapped to upper case; any other character kept.
pub open spec fn ascii_upper(c: char) -> char {
    if 'a' <= c && c <= 'z' {
        ((c as u32) - 32) as char
    } else {
        c
    }
}

/// Lower-cases a text with std's `str::to_lowercase`. Its Unicode tables are
/// not stated here: the result is named `lowercase_of`, a function of the text
/// alone; of an ASCII text it is the text with `A`..`Z` made `a`..`z`.
#[verifier::external_body]
pub(crate) fn to_lowercase(s: &str) -> (res: String)
    ensures
        res@ == lowercase_of(s@),
        all_ascii(s@) ==> res@ == s@.map_values(|c: char| ascii_lower(c)),
{
    s.to_lowercase()
}

/// Upper-cases a text with std's `str::to_uppercase`. Its Unicode tables are
/// not stated here: the result is named `uppercase_of`, a function of the text
/// alone; of an ASCII text it is the text with `a`..`z` made `A`..`Z`.
#[verifier::external_body]
pub(crate) fn to_uppercase(s: &str) -> (res: String)
    ensures
        res@ == uppercase_of(s@),
        all_ascii(s@) ==> res@ == s@.map_values(|c: char| ascii_upper(c)),
{
    s.to_uppercase()
}

} // verus!

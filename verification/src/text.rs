//! Text as sequences of characters: the white space, prefixes, searches and lines that the
//! rest of the library is stated with, and the functions on character slices that compute them.
use vstd::prelude::*;
use vstd::slice::slice_subrange;

verus! {

broadcast use vstd::string::group_string_axioms;

// ---------------------------------------------------------------------------------------------
// What the functions below compute
// ---------------------------------------------------------------------------------------------

/// The characters with the Unicode property `White_Space`.
pub open spec fn is_white_space(c: char) -> bool {
    ||| '\u{9}' <= c <= '\u{d}'
    ||| c == '\u{20}'
    ||| c == '\u{85}'
    ||| c == '\u{a0}'
    ||| c == '\u{1680}'
    ||| '\u{2000}' <= c <= '\u{200a}'
    ||| c == '\u{2028}'
    ||| c == '\u{2029}'
    ||| c == '\u{202f}'
    ||| c == '\u{205f}'
    ||| c == '\u{3000}'
}

/// `s` without the longest run of white space at its start.
pub open spec fn trim_start(s: Seq<char>) -> Seq<char>
    decreases s.len(),
{
    if s.len() > 0 && is_white_space(s[0]) {
        trim_start(s.skip(1))
    } else {
        s
    }
}

/// `s` without the longest run of white space at its end.
pub open spec fn trim_end(s: Seq<char>) -> Seq<char>
    decreases s.len(),
{
    if s.len() > 0 && is_white_space(s.last()) {
        trim_end(s.drop_last())
    } else {
        s
    }
}

/// `s` without white space at either end.
pub open spec fn trim(s: Seq<char>) -> Seq<char> {
    trim_end(trim_start(s))
}

/// `s` without the longest run of `c` at its start.
pub open spec fn strip_leading(s: Seq<char>, c: char) -> Seq<char>
    decreases s.len(),
{
    if s.len() > 0 && s[0] == c {
        strip_leading(s.skip(1), c)
    } else {
        s
    }
}

/// `s` without the longest run of `c` at its end.
pub open spec fn strip_trailing(s: Seq<char>, c: char) -> Seq<char>
    decreases s.len(),
{
    if s.len() > 0 && s.last() == c {
        strip_trailing(s.drop_last(), c)
    } else {
        s
    }
}

/// `p` stands at the start of `s`.
pub open spec fn has_prefix(s: Seq<char>, p: Seq<char>) -> bool {
    p.len() <= s.len() && s.take(p.len() as int) == p
}

/// What follows the prefix `p` in `s`, where `s` has that prefix.
pub open spec fn after_prefix(s: Seq<char>, p: Seq<char>) -> Option<Seq<char>> {
    if has_prefix(s, p) {
        Some(s.skip(p.len() as int))
    } else {
        None
    }
}

/// `p` stands in `s` at index `i`.
pub open spec fn occurs_at(s: Seq<char>, p: Seq<char>, i: int) -> bool {
    0 <= i <= s.len() && has_prefix(s.skip(i), p)
}

/// `i` is the first index at which `p` stands in `s`.
pub open spec fn first_at(s: Seq<char>, p: Seq<char>, i: int) -> bool {
    occurs_at(s, p, i) && forall|j: int| 0 <= j < i ==> !#[trigger] occurs_at(s, p, j)
}

/// The first index at which `p` stands in `s`.
pub open spec fn find(s: Seq<char>, p: Seq<char>) -> Option<int> {
    if exists|i: int| first_at(s, p, i) {
        Some(choose|i: int| first_at(s, p, i))
    } else {
        None
    }
}

/// A line without the carriage return that belongs to its line ending.
pub open spec fn without_carriage_return(line: Seq<char>) -> Seq<char> {
    if line.len() > 0 && line.last() == '\r' {
        line.drop_last()
    } else {
        line
    }
}

/// How many characters of `s` stand before its first line feed.
pub open spec fn line_length(s: Seq<char>) -> nat
    decreases s.len(),
{
    if s.len() == 0 || s[0] == '\n' {
        0
    } else {
        1 + line_length(s.skip(1))
    }
}

/// The lines of `s`. A line ends in a line feed or in a carriage return and a line feed; neither
/// belongs to the line. The last line may lack its ending, and no empty line follows a last ending.
pub open spec fn lines(s: Seq<char>) -> Seq<Seq<char>>
    decreases s.len(),
{
    let n = line_length(s);
    if s.len() == 0 {
        Seq::empty()
    } else if n < s.len() {
        seq![without_carriage_return(s.take(n as int))] + lines(s.skip(n as int + 1))
    } else {
        seq![s]
    }
}

/// The view of an optional string.
pub open spec fn view_of(value: Option<String>) -> Option<Seq<char>> {
    match value {
        Some(s) => Some(s@),
        None => None,
    }
}

/// The views of some strings.
pub open spec fn texts(strings: Seq<String>) -> Seq<Seq<char>> {
    strings.map_values(|s: String| s@)
}

/// The view of a result: what it holds, or the words of the error.
pub open spec fn viewed<T: View>(r: Result<T, String>) -> Result<T::V, Seq<char>> {
    match r {
        Ok(v) => Ok(v@),
        Err(e) => Err(e@),
    }
}

/// The view of a result whose content stands for itself.
pub open spec fn viewed_as_is<T>(r: Result<T, String>) -> Result<T, Seq<char>> {
    match r {
        Ok(v) => Ok(v),
        Err(e) => Err(e@),
    }
}

/// No character of `s` is white space.
pub open spec fn no_white_space(s: Seq<char>) -> bool {
    forall|i: int| 0 <= i < s.len() ==> !is_white_space(#[trigger] s[i])
}

// ---------------------------------------------------------------------------------------------
// Conversions
// ---------------------------------------------------------------------------------------------

/// `String::push` appends one character to the string.
pub assume_specification[ String::push ](s: &mut String, c: char)
    ensures
        final(s)@ == old(s)@.push(c),
;

/// The characters of a string.
pub fn to_chars(s: &str) -> (r: Vec<char>)
    ensures
        r@ == s@,
{
    let mut r: Vec<char> = Vec::new();
    for c in it: s.chars()
        invariant
            r@ == s@.take(it.index() as int),
            it.seq() == s@,
    {
        r.push(c);
        assert(s@.take(it.index() + 1) == s@.take(it.index() as int).push(c));
    }
    assert(s@.take(s@.len() as int) == s@);
    r
}

/// The string of some characters.
pub fn to_text(s: &[char]) -> (r: String)
    ensures
        r@ == s@,
{
    let mut r = String::new();
    let mut i: usize = 0;
    while i < s.len()
        invariant
            i <= s@.len(),
            r@ == s@.take(i as int),
        decreases s@.len() - i,
    {
        r.push(s[i]);
        assert(s@.take(i + 1) == s@.take(i as int).push(s@[i as int]));
        i = i + 1;
    }
    assert(s@.take(s@.len() as int) == s@);
    r
}

// ---------------------------------------------------------------------------------------------
// Lemmas
// ---------------------------------------------------------------------------------------------

/// The first index at which a text stands is the one that `find` gives.
pub proof fn lemma_find_is_first(s: Seq<char>, p: Seq<char>, i: int)
    requires
        first_at(s, p, i),
    ensures
        find(s, p) == Some(i),
{
    let k = choose|k: int| first_at(s, p, k);
    assert(first_at(s, p, k));
    if k < i {
        assert(!occurs_at(s, p, k));
    }
    if i < k {
        assert(!occurs_at(s, p, i));
    }
}

/// A text that stands at no index is not found.
pub proof fn lemma_find_none(s: Seq<char>, p: Seq<char>)
    requires
        forall|j: int| 0 <= j <= s.len() ==> !#[trigger] occurs_at(s, p, j),
    ensures
        find(s, p) is None,
{
    assert forall|i: int| !first_at(s, p, i) by {
        if first_at(s, p, i) {
            assert(occurs_at(s, p, i));
        }
    }
}

/// What `find` gives is the first index at which the text stands.
pub proof fn lemma_find_some(s: Seq<char>, p: Seq<char>)
    ensures
        find(s, p) matches Some(i) ==> first_at(s, p, i),
{
}

/// Where a text has no line feed among its first `n` characters and one right behind them, its
/// first line is `n` characters long.
proof fn lemma_line_length(s: Seq<char>, n: nat)
    requires
        n <= s.len(),
        forall|i: int| 0 <= i < n ==> s[i] != '\n',
        n < s.len() ==> s[n as int] == '\n',
    ensures
        line_length(s) == n,
    decreases s.len(),
{
    if s.len() > 0 && s[0] != '\n' {
        lemma_line_length(s.skip(1), (n - 1) as nat);
    }
}

/// A text in which no line ends is one line.
pub proof fn lemma_one_line(s: Seq<char>)
    requires
        s.len() > 0,
        forall|i: int| 0 <= i < s.len() ==> s[i] != '\n',
    ensures
        lines(s) == seq![s],
{
    lemma_line_length(s, s.len());
}

/// Removing a character from the start leaves the end of a text, which does not begin with it.
pub proof fn lemma_strip_leading(s: Seq<char>, c: char)
    ensures
        strip_leading(s, c).len() <= s.len(),
        strip_leading(s, c) == s.skip(s.len() - strip_leading(s, c).len()),
        strip_leading(s, c).len() > 0 ==> strip_leading(s, c)[0] != c,
    decreases s.len(),
{
    if s.len() > 0 && s[0] == c {
        lemma_strip_leading(s.skip(1), c);
        let n = strip_leading(s, c).len();
        assert(s.skip(1).skip(s.len() - 1 - n) == s.skip(s.len() - n));
    } else {
        assert(s.skip(0) == s);
    }
}

/// A text that does not begin with the character is left as it is, and so is one that does not
/// end with it.
pub proof fn lemma_strip_keeps(s: Seq<char>, c: char)
    ensures
        s.len() == 0 || s[0] != c ==> strip_leading(s, c) == s,
        s.len() == 0 || s.last() != c ==> strip_trailing(s, c) == s,
{
}

/// One more character at the end makes no difference to a text without such characters around it.
pub proof fn lemma_strip_ignores_one_more(s: Seq<char>, c: char)
    ensures
        strip_trailing(strip_leading(s.push(c), c), c) == strip_trailing(strip_leading(s, c), c),
        strip_leading(seq![c] + s, c) == strip_leading(s, c),
    decreases s.len(),
{
    assert((seq![c] + s).skip(1) == s);
    if s.len() == 0 {
        assert(s.push(c).skip(1) == s);
    } else if s[0] == c {
        lemma_strip_ignores_one_more(s.skip(1), c);
        assert(s.push(c).skip(1) == s.skip(1).push(c));
    } else {
        assert(s.push(c).drop_last() == s);
    }
}

/// Trimming the start leaves the end of a text, which does not begin with white space.
pub proof fn lemma_trim_start(s: Seq<char>)
    ensures
        trim_start(s).len() <= s.len(),
        trim_start(s) == s.skip(s.len() - trim_start(s).len()),
        trim_start(s).len() > 0 ==> !is_white_space(trim_start(s)[0]),
    decreases s.len(),
{
    if s.len() > 0 && is_white_space(s[0]) {
        lemma_trim_start(s.skip(1));
        let n = trim_start(s).len();
        assert(s.skip(1).skip(s.len() - 1 - n) == s.skip(s.len() - n));
    } else {
        assert(s.skip(0) == s);
    }
}

/// Trimming the end leaves the start of a text, which does not end with white space.
pub proof fn lemma_trim_end(s: Seq<char>)
    ensures
        trim_end(s).len() <= s.len(),
        trim_end(s) == s.take(trim_end(s).len() as int),
        trim_end(s).len() > 0 ==> !is_white_space(trim_end(s).last()),
    decreases s.len(),
{
    if s.len() > 0 && is_white_space(s.last()) {
        lemma_trim_end(s.drop_last());
        let n = trim_end(s).len() as int;
        assert(s.drop_last().take(n) == s.take(n));
    } else {
        assert(s.take(s.len() as int) == s);
    }
}

/// A trimmed text has no white space at either end.
pub proof fn lemma_trim_ends(s: Seq<char>)
    ensures
        trim(s).len() > 0 ==> !is_white_space(trim(s)[0]) && !is_white_space(trim(s).last()),
{
    lemma_trim_start(s);
    lemma_trim_end(trim_start(s));
}

/// A text without white space at either end is left as it is.
pub proof fn lemma_trim_keeps(s: Seq<char>)
    requires
        s.len() > 0 ==> !is_white_space(s[0]) && !is_white_space(s.last()),
    ensures
        trim(s) == s,
{
}

/// Trimming twice is trimming once.
pub proof fn law_trim_is_idempotent(s: Seq<char>)
    ensures
        trim(trim(s)) == trim(s),
{
    lemma_trim_ends(s);
    lemma_trim_keeps(trim(s));
}

/// Every character of `s` is white space.
pub open spec fn is_blank(s: Seq<char>) -> bool {
    forall|i: int| 0 <= i < s.len() ==> is_white_space(#[trigger] s[i])
}

/// Every character of `s` is `c`.
pub open spec fn is_made_of(s: Seq<char>, c: char) -> bool {
    forall|i: int| 0 <= i < s.len() ==> #[trigger] s[i] == c
}

/// No line ends within the text.
pub open spec fn is_one_line(s: Seq<char>) -> bool {
    forall|i: int| 0 <= i < s.len() ==> #[trigger] s[i] != '\n'
}

/// No white space stands at either end of the text.
pub open spec fn has_bare_ends(s: Seq<char>) -> bool {
    s.len() > 0 ==> !is_white_space(s[0]) && !is_white_space(s.last())
}

/// White space before a text makes no difference to what is left of its start.
pub proof fn lemma_trim_start_skips(a: Seq<char>, s: Seq<char>)
    requires
        is_blank(a),
    ensures
        trim_start(a + s) == trim_start(s),
    decreases a.len(),
{
    if a.len() == 0 {
        assert(a + s == s);
    } else {
        assert(is_white_space(a[0]));
        assert((a + s)[0] == a[0]);
        assert((a + s).skip(1) == a.skip(1) + s);
        assert forall|i: int| 0 <= i < a.skip(1).len() implies is_white_space(
            #[trigger] a.skip(1)[i],
        ) by {
            assert(is_white_space(a[i + 1]));
        }
        lemma_trim_start_skips(a.skip(1), s);
    }
}

/// White space behind a text makes no difference to what is left of its end.
proof fn lemma_trim_end_cuts(s: Seq<char>, b: Seq<char>)
    requires
        is_blank(b),
    ensures
        trim_end(s + b) == trim_end(s),
    decreases b.len(),
{
    if b.len() == 0 {
        assert(s + b == s);
    } else {
        assert(is_white_space(b[b.len() - 1]));
        assert((s + b).last() == b.last());
        assert((s + b).drop_last() == s + b.drop_last());
        assert forall|i: int| 0 <= i < b.drop_last().len() implies is_white_space(
            #[trigger] b.drop_last()[i],
        ) by {
            assert(is_white_space(b[i]));
        }
        lemma_trim_end_cuts(s, b.drop_last());
    }
}

/// Trimming removes the white space around a text, all of it and nothing else.
pub proof fn law_trim_removes_what_is_around(a: Seq<char>, s: Seq<char>, b: Seq<char>)
    requires
        is_blank(a),
        is_blank(b),
        has_bare_ends(s),
    ensures
        trim(a + s + b) == s,
        trim_start(a + s) == s,
        trim_end(s + b) == s,
{
    assert(a + s + b == a + (s + b));
    lemma_trim_start_skips(a, s + b);
    lemma_trim_start_skips(a, s);
    lemma_trim_end_cuts(s, b);
    if s.len() == 0 {
        assert(s + b == b);
        assert(b + s == b);
        lemma_trim_start_skips(b, s);
    }
}

/// Stripping removes every such character at one end of a text, and nothing else.
pub proof fn law_strip_removes_what_is_at_the_end(a: Seq<char>, s: Seq<char>, c: char)
    requires
        is_made_of(a, c),
    ensures
        s.len() == 0 || s[0] != c ==> strip_leading(a + s, c) == s,
        s.len() == 0 || s.last() != c ==> strip_trailing(s + a, c) == s,
    decreases a.len(),
{
    if a.len() == 0 {
        assert(a + s == s);
        assert(s + a == s);
    } else {
        assert(a[0] == c && a[a.len() - 1] == c);
        assert forall|i: int| 0 <= i < a.skip(1).len() implies #[trigger] a.skip(1)[i] == c by {
            assert(a[i + 1] == c);
        }
        law_strip_removes_what_is_at_the_end(a.skip(1), s, c);
        assert((a + s).skip(1) == a.skip(1) + s);
        assert(a.skip(1) == a.drop_last());
        assert((s + a).drop_last() == s + a.drop_last());
    }
}

/// A text is a prefix and what follows it, if and only if that is what is found behind the prefix.
pub proof fn law_prefix_and_rest_are_the_whole(s: Seq<char>, p: Seq<char>, rest: Seq<char>)
    ensures
        after_prefix(s, p) == Some(rest) <==> s == p + rest,
        has_prefix(s, p) <==> after_prefix(s, p) is Some,
{
    if s == p + rest {
        assert(s.take(p.len() as int) == p);
        assert(s.skip(p.len() as int) == rest);
    }
    if after_prefix(s, p) == Some(rest) {
        assert(s == s.take(p.len() as int) + s.skip(p.len() as int));
    }
}

/// What is found stands at its index and nowhere before; what is not found stands nowhere.
pub proof fn law_the_first_place_is_found(s: Seq<char>, p: Seq<char>, i: int)
    ensures
        find(s, p) == Some(i) <==> {
            &&& 0 <= i <= i + p.len() <= s.len()
            &&& s.subrange(i, i + p.len()) == p
            &&& forall|j: int| 0 <= j < i ==> #[trigger] s.subrange(j, j + p.len()) != p
        },
        find(s, p) is None && 0 <= i <= i + p.len() <= s.len() ==> s.subrange(i, i + p.len()) != p,
{
    assert forall|j: int| 0 <= j && j + p.len() <= s.len() implies (occurs_at(s, p, j)
        <==> #[trigger] s.subrange(j, j + p.len()) == p) by {
        assert(s.skip(j).take(p.len() as int) == s.subrange(j, j + p.len()));
    }
    if find(s, p) is Some {
        let k = choose|k: int| first_at(s, p, k);
        assert(occurs_at(s, p, k));
        if k != i {
            assert(s.subrange(k, k + p.len()) == p);
            if i < k {
                assert(!occurs_at(s, p, i));
            }
        } else {
            assert forall|j: int| 0 <= j < i implies #[trigger] s.subrange(j, j + p.len())
                != p by {
                assert(!occurs_at(s, p, j));
            }
        }
    }
    if 0 <= i <= i + p.len() <= s.len() && s.subrange(i, i + p.len()) == p {
        if forall|j: int| 0 <= j < i ==> #[trigger] s.subrange(j, j + p.len()) != p {
            assert forall|j: int| 0 <= j < i implies !#[trigger] occurs_at(s, p, j) by {
                assert(s.subrange(j, j + p.len()) != p);
            }
            lemma_find_is_first(s, p, i);
        }
        if find(s, p) is None {
            lemma_some_place_is_first(s, p, i);
        }
    }
}

/// A text that stands somewhere stands somewhere first.
proof fn lemma_some_place_is_first(s: Seq<char>, p: Seq<char>, i: int)
    requires
        occurs_at(s, p, i),
    ensures
        exists|k: int| first_at(s, p, k),
    decreases i,
{
    if forall|j: int| 0 <= j < i ==> !#[trigger] occurs_at(s, p, j) {
        assert(first_at(s, p, i));
    } else {
        let j = choose|j: int| 0 <= j < i && #[trigger] occurs_at(s, p, j);
        lemma_some_place_is_first(s, p, j);
    }
}

/// The lines of a text are those that its line endings end, in their order, and a last one that
/// none does.
pub proof fn law_lines_end_at_their_endings(line: Seq<char>, rest: Seq<char>)
    requires
        is_one_line(line),
    ensures
        lines(Seq::empty()) == Seq::<Seq<char>>::empty(),
        line.len() > 0 ==> lines(line) == seq![line],
        line.len() == 0 || line.last() != '\r' ==> lines(line + seq!['\n'] + rest) == seq![line]
            + lines(rest),
        lines(line + seq!['\r', '\n'] + rest) == seq![line] + lines(rest),
{
    let n = line.len() as int;
    if n > 0 {
        lemma_one_line(line);
    }
    let s = line + seq!['\n'] + rest;
    assert(s[n] == '\n');
    assert forall|i: int| 0 <= i < n implies s[i] != '\n' by {
        assert(s[i] == line[i]);
    }
    lemma_line_length(s, n as nat);
    assert(s.take(n) == line);
    assert(s.skip(n + 1) == rest);
    let t = line + seq!['\r', '\n'] + rest;
    assert(t[n] == '\r' && t[n + 1] == '\n');
    assert forall|i: int| 0 <= i < n + 1 implies t[i] != '\n' by {
        if i < n {
            assert(t[i] == line[i]);
        }
    }
    lemma_line_length(t, (n + 1) as nat);
    assert(t.take(n + 1) == line.push('\r'));
    assert(t.take(n + 1).drop_last() == line);
    assert(t.skip(n + 2) == rest);
}

/// A text that ends with a line ending brings its own lines before those of what follows.
pub proof fn lemma_lines_append(head: Seq<char>, s: Seq<char>)
    requires
        head.len() == 0 || head.last() == '\n',
    ensures
        lines(head + s) == lines(head) + lines(s),
    decreases head.len(),
{
    if head.len() == 0 {
        assert(head + s == s);
        assert(lines(head) + lines(s) == lines(s));
    } else {
        lemma_first_line_ends(head);
        let n = line_length(head) as int;
        let whole = head + s;
        assert(n < head.len()) by {
            if n == head.len() {
                assert(head[head.len() - 1] != '\n');
            }
        }
        assert forall|i: int| 0 <= i < n implies whole[i] != '\n' by {
            assert(whole[i] == head[i]);
        }
        lemma_line_length(whole, n as nat);
        assert(whole.take(n) == head.take(n));
        let tail = head.skip(n + 1);
        assert(whole.skip(n + 1) == tail + s);
        if tail.len() > 0 {
            assert(tail.last() == head.last());
        }
        lemma_lines_append(tail, s);
        let first = seq![without_carriage_return(head.take(n))];
        assert(lines(whole) == first + lines(tail + s));
        assert(first + (lines(tail) + lines(s)) == (first + lines(tail)) + lines(s));
    }
}

/// The first line feed of a text stands behind its first line.
proof fn lemma_first_line_ends(s: Seq<char>)
    ensures
        line_length(s) <= s.len(),
        line_length(s) < s.len() ==> s[line_length(s) as int] == '\n',
        forall|i: int| 0 <= i < line_length(s) ==> #[trigger] s[i] != '\n',
    decreases s.len(),
{
    if s.len() > 0 && s[0] != '\n' {
        let rest = s.skip(1);
        lemma_first_line_ends(rest);
        assert forall|i: int| 0 <= i < line_length(s) implies #[trigger] s[i] != '\n' by {
            if i > 0 {
                assert(s[i] == rest[i - 1]);
            }
        }
        if line_length(s) < s.len() {
            assert(rest[line_length(rest) as int] == s[line_length(s) as int]);
        }
    }
}

/// The view of a result shows what it holds, and the view of an error its words.
pub proof fn law_results_are_viewed_as_they_are<T: View, U>(
    r: Result<T, String>,
    n: Result<U, String>,
)
    ensures
        r matches Ok(v) ==> viewed(r) == Ok::<T::V, Seq<char>>(v@),
        r matches Err(e) ==> viewed(r) == Err::<T::V, Seq<char>>(e@),
        n matches Ok(v) ==> viewed_as_is(n) == Ok::<U, Seq<char>>(v),
        n matches Err(e) ==> viewed_as_is(n) == Err::<U, Seq<char>>(e@),
{
}

/// The views of strings are the views of each of them, in their order.
pub proof fn law_strings_are_viewed_as_they_are(value: Option<String>, strings: Seq<String>)
    ensures
        value matches Some(s) ==> view_of(value) == Some(s@),
        value is None ==> view_of(value) is None,
        texts(strings).len() == strings.len(),
        forall|i: int| 0 <= i < strings.len() ==> #[trigger] texts(strings)[i] == strings[i]@,
{
}

// ---------------------------------------------------------------------------------------------
// Functions on character slices
// ---------------------------------------------------------------------------------------------

/// Tells whether a character is white space.
pub fn is_white(c: char) -> (r: bool)
    ensures
        r == is_white_space(c),
{
    ('\u{9}' <= c && c <= '\u{d}') || c == '\u{20}' || c == '\u{85}' || c == '\u{a0}' || c
        == '\u{1680}' || ('\u{2000}' <= c && c <= '\u{200a}') || c == '\u{2028}' || c == '\u{2029}'
        || c == '\u{202f}' || c == '\u{205f}' || c == '\u{3000}'
}

/// Removes the white space at the start.
pub fn skip_white(s: &[char]) -> (r: &[char])
    ensures
        r@ == trim_start(s@),
{
    let mut i: usize = 0;
    assert(s@.skip(0) == s@);
    while i < s.len() && is_white(s[i])
        invariant
            i <= s@.len(),
            trim_start(s@) == trim_start(s@.skip(i as int)),
        decreases s@.len() - i,
    {
        assert(s@.skip(i as int).skip(1) == s@.skip(i + 1));
        i = i + 1;
    }
    slice_subrange(s, i, s.len())
}

/// Removes the white space at the end.
pub fn cut_white(s: &[char]) -> (r: &[char])
    ensures
        r@ == trim_end(s@),
{
    let mut n: usize = s.len();
    assert(s@.take(n as int) == s@);
    while n > 0 && is_white(s[n - 1])
        invariant
            n <= s@.len(),
            trim_end(s@) == trim_end(s@.take(n as int)),
        decreases n,
    {
        assert(s@.take(n as int).drop_last() == s@.take(n - 1));
        n = n - 1;
    }
    slice_subrange(s, 0, n)
}

/// Removes the white space at both ends.
pub fn trimmed(s: &[char]) -> (r: &[char])
    ensures
        r@ == trim(s@),
{
    cut_white(skip_white(s))
}

/// Removes every `c` at the start.
pub fn skip_char(s: &[char], c: char) -> (r: &[char])
    ensures
        r@ == strip_leading(s@, c),
{
    let mut i: usize = 0;
    assert(s@.skip(0) == s@);
    while i < s.len() && s[i] == c
        invariant
            i <= s@.len(),
            strip_leading(s@, c) == strip_leading(s@.skip(i as int), c),
        decreases s@.len() - i,
    {
        assert(s@.skip(i as int).skip(1) == s@.skip(i + 1));
        i = i + 1;
    }
    slice_subrange(s, i, s.len())
}

/// Removes every `c` at the end.
pub fn cut_char(s: &[char], c: char) -> (r: &[char])
    ensures
        r@ == strip_trailing(s@, c),
{
    let mut n: usize = s.len();
    assert(s@.take(n as int) == s@);
    while n > 0 && s[n - 1] == c
        invariant
            n <= s@.len(),
            strip_trailing(s@, c) == strip_trailing(s@.take(n as int), c),
        decreases n,
    {
        assert(s@.take(n as int).drop_last() == s@.take(n - 1));
        n = n - 1;
    }
    slice_subrange(s, 0, n)
}

/// Tells whether `p` stands at the start of `s`.
pub fn starts_with(s: &[char], p: &[char]) -> (r: bool)
    ensures
        r == has_prefix(s@, p@),
{
    if s.len() < p.len() {
        return false;
    }
    let mut i: usize = 0;
    while i < p.len()
        invariant
            i <= p@.len() <= s@.len(),
            s@.take(i as int) == p@.take(i as int),
        decreases p@.len() - i,
    {
        if s[i] != p[i] {
            assert(s@.take(p@.len() as int)[i as int] != p@[i as int]);
            return false;
        }
        assert(s@.take(i + 1) == s@.take(i as int).push(s@[i as int]));
        assert(p@.take(i + 1) == p@.take(i as int).push(p@[i as int]));
        i = i + 1;
    }
    assert(p@.take(p@.len() as int) == p@);
    true
}

/// What follows the prefix `p` in `s`, where `s` has that prefix.
pub fn strip_prefix<'a>(s: &'a [char], p: &[char]) -> (r: Option<&'a [char]>)
    ensures
        match r {
            Some(rest) => after_prefix(s@, p@) == Some(rest@),
            None => after_prefix(s@, p@) is None,
        },
{
    if starts_with(s, p) {
        Some(slice_subrange(s, p.len(), s.len()))
    } else {
        None
    }
}

/// The first index at which `p` stands in `s`.
pub fn position(s: &[char], p: &[char]) -> (r: Option<usize>)
    ensures
        match r {
            Some(i) => find(s@, p@) == Some(i as int) && i + p@.len() <= s@.len(),
            None => find(s@, p@) is None,
        },
{
    let mut i: usize = 0;
    while i < s.len()
        invariant
            i <= s@.len(),
            forall|j: int| 0 <= j < i ==> !#[trigger] occurs_at(s@, p@, j),
        decreases s@.len() - i,
    {
        if starts_with(slice_subrange(s, i, s.len()), p) {
            proof {
                lemma_find_is_first(s@, p@, i as int);
            }
            return Some(i);
        }
        i = i + 1;
    }
    if p.len() == 0 {
        proof {
            assert(s@.skip(i as int).take(0) == p@);
            lemma_find_is_first(s@, p@, i as int);
        }
        return Some(i);
    }
    proof {
        lemma_find_none(s@, p@);
    }
    None
}

/// Tells whether two texts are the same.
pub fn same_chars(a: &[char], b: &[char]) -> (r: bool)
    ensures
        r == (a@ == b@),
{
    let r = a.len() == b.len() && starts_with(a, b);
    assert(a@.take(a@.len() as int) == a@);
    r
}

/// Tells whether two strings are the same.
pub fn same_text(a: &str, b: &str) -> (r: bool)
    ensures
        r == (a@ == b@),
{
    a.to_owned() == b.to_owned()
}

/// A string without the white space at its ends.
pub fn trimmed_text(s: &str) -> (r: &str)
    ensures
        r@ == trim(s@),
{
    let chars = to_chars(s);
    let start = skip_white(&chars);
    let whole = cut_white(start);
    proof {
        lemma_trim_start(s@);
        lemma_trim_end(trim_start(s@));
    }
    let from: usize = chars.len() - start.len();
    proof {
        assert(s@.subrange(from as int, from + whole@.len()) == s@.skip(from as int).take(
            whole@.len() as int,
        ));
    }
    s.substring_char(from, from + whole.len())
}

/// Joins two strings.
pub fn concat(a: &str, b: &str) -> (r: String)
    ensures
        r@ == a@ + b@,
{
    let mut r: String = a.to_owned();
    r.append(b);
    r
}

/// The first line of a text that is not empty, and what follows its ending.
pub fn split_line(s: &[char]) -> (r: (&[char], &[char]))
    requires
        s@.len() > 0,
    ensures
        r.1@.len() < s@.len(),
        lines(s@) == seq![r.0@] + lines(r.1@),
{
    let mut n: usize = 0;
    while n < s.len() && s[n] != '\n'
        invariant
            n <= s@.len(),
            forall|i: int| 0 <= i < n ==> s@[i] != '\n',
        decreases s@.len() - n,
    {
        n = n + 1;
    }
    proof {
        lemma_line_length(s@, n as nat);
    }
    if n == s.len() {
        let rest = slice_subrange(s, n, n);
        assert(lines(rest@) == Seq::<Seq<char>>::empty());
        return (s, rest);
    }
    let rest = slice_subrange(s, n + 1, s.len());
    if n > 0 && s[n - 1] == '\r' {
        let line = slice_subrange(s, 0, n - 1);
        assert(line@ == without_carriage_return(s@.take(n as int)));
        (line, rest)
    } else {
        let line = slice_subrange(s, 0, n);
        assert(line@ == without_carriage_return(s@.take(n as int)));
        (line, rest)
    }
}

} // verus!

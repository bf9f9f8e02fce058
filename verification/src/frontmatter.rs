//! The metadata at the head of a documentation page: the block between two `---` fences, the
//! values in it, and the first heading of the page below it.
use vstd::prelude::*;
use vstd::slice::slice_subrange;

use crate::text;

verus! {

broadcast use vstd::string::group_string_axioms;

/// The text between the fences: what stands between a first line `---` and the next line `---`
/// that is followed by a line feed. A page without both fences has no such block.
pub open spec fn block(content: Seq<char>) -> Option<Seq<char>> {
    match text::after_prefix(content, "---\n"@) {
        Some(rest) => match text::find(rest, "\n---\n"@) {
            Some(end) => Some(rest.take(end)),
            None => None,
        },
        None => None,
    }
}

/// The page below the block, or the whole page where it has no block.
pub open spec fn body(content: Seq<char>) -> Seq<char> {
    match text::after_prefix(content, "---\n"@) {
        Some(rest) => match text::find(rest, "\n---\n"@) {
            Some(end) => rest.skip(end + "\n---\n"@.len()),
            None => content,
        },
        None => content,
    }
}

/// What follows `prefix` on the first line that starts with it behind its indentation.
pub open spec fn first_entry(lines: Seq<Seq<char>>, prefix: Seq<char>) -> Option<Seq<char>>
    decreases lines.len(),
{
    if lines.len() == 0 {
        None
    } else {
        match text::after_prefix(text::trim_start(lines[0]), prefix) {
            Some(value) => Some(value),
            None => first_entry(lines.skip(1), prefix),
        }
    }
}

/// The indicators with which a value over several lines begins.
pub open spec fn is_block_scalar(value: Seq<char>) -> bool {
    ||| value == "|"@
    ||| value == ">"@
    ||| value == "|-"@
    ||| value == ">-"@
    ||| value == "|+"@
    ||| value == ">+"@
}

/// `s` with each backslash that stands right before `quote` left out, from left to right.
pub open spec fn unescaped(s: Seq<char>, quote: char) -> Seq<char>
    decreases s.len(),
{
    if s.len() == 0 {
        s
    } else if s.len() >= 2 && s[0] == '\\' && s[1] == quote {
        seq![quote] + unescaped(s.skip(2), quote)
    } else {
        seq![s[0]] + unescaped(s.skip(1), quote)
    }
}

/// `value` begins and ends with a quote of its own.
pub open spec fn is_quoted(value: Seq<char>, quote: char) -> bool {
    value.len() >= 2 && value[0] == quote && value.last() == quote
}

/// What stands between the two outermost characters.
pub open spec fn inner(value: Seq<char>) -> Seq<char> {
    value.subrange(1, value.len() - 1)
}

/// A value without the matching quotes around it, and with escaped quotes inside them resolved.
pub open spec fn unquoted(value: Seq<char>) -> Seq<char> {
    if is_quoted(value, '"') {
        unescaped(inner(value), '"')
    } else if is_quoted(value, '\'') {
        unescaped(inner(value), '\'')
    } else {
        value
    }
}

/// The value of `key` in the block of a page. Values over several lines and empty values count
/// as absent.
pub open spec fn value_of(content: Seq<char>, key: Seq<char>) -> Option<Seq<char>> {
    match block(content) {
        Some(b) => match first_entry(text::lines(b), key + ":"@) {
            Some(raw) => {
                let value = text::trim(raw);
                if is_block_scalar(value) || unquoted(value).len() == 0 {
                    None
                } else {
                    Some(unquoted(value))
                }
            },
            None => None,
        },
        None => None,
    }
}

/// What follows `# ` on the first line that starts with it, white space around the line aside.
pub open spec fn first_heading(lines: Seq<Seq<char>>) -> Option<Seq<char>>
    decreases lines.len(),
{
    if lines.len() == 0 {
        None
    } else {
        match text::after_prefix(text::trim(lines[0]), "# "@) {
            Some(title) => Some(title),
            None => first_heading(lines.skip(1)),
        }
    }
}

/// The first heading of the page below its block.
pub open spec fn heading_of(content: Seq<char>) -> Option<Seq<char>> {
    match first_heading(text::lines(body(content))) {
        Some(title) => if text::trim(title).len() == 0 {
            None
        } else {
            Some(text::trim(title))
        },
        None => None,
    }
}

/// Where the block ends, counted from behind the opening fence.
fn block_end(content: &str) -> (r: Option<usize>)
    ensures
        match r {
            Some(end) => {
                &&& text::after_prefix(content@, "---\n"@) is Some
                &&& text::find(text::after_prefix(content@, "---\n"@)->0, "\n---\n"@) == Some(
                    end as int,
                )
                &&& 4 + end + 5 <= content@.len() <= usize::MAX
            },
            None => block(content@) is None && body(content@) == content@,
        },
{
    let chars = text::to_chars(content);
    assert(chars.len() == content@.len());
    let open = text::to_chars("---\n");
    let close = text::to_chars("\n---\n");
    proof {
        reveal_strlit("---\n");
        reveal_strlit("\n---\n");
    }
    match text::strip_prefix(&chars, &open) {
        Some(rest) => text::position(rest, &close),
        None => None,
    }
}

/// The text between the fences.
pub fn frontmatter_block(content: &str) -> (r: Option<&str>)
    ensures
        match r {
            Some(b) => block(content@) == Some(b@),
            None => block(content@) is None,
        },
{
    match block_end(content) {
        Some(end) => {
            proof {
                reveal_strlit("---\n");
            }
            let b = content.substring_char(4, 4 + end);
            assert(b@ == content@.skip(4).take(end as int));
            Some(b)
        },
        None => None,
    }
}

/// The page below its block.
pub fn content_without_frontmatter(content: &str) -> (r: &str)
    ensures
        r@ == body(content@),
{
    match block_end(content) {
        Some(end) => {
            proof {
                reveal_strlit("---\n");
                reveal_strlit("\n---\n");
            }
            let r = content.substring_char(4 + end + 5, content.unicode_len());
            assert(r@ == content@.skip(4).skip(end + 5));
            r
        },
        None => content,
    }
}

/// Removes the matching quotes around a value and resolves the escaped quotes inside them.
pub fn trim_quotes(value: &str) -> (r: String)
    ensures
        r@ == unquoted(value@),
{
    let chars = text::to_chars(value);
    let n: usize = chars.len();
    if n >= 2 && chars[0] == '"' && chars[n - 1] == '"' {
        unescape(slice_subrange(&chars, 1, n - 1), '"')
    } else if n >= 2 && chars[0] == '\'' && chars[n - 1] == '\'' {
        unescape(slice_subrange(&chars, 1, n - 1), '\'')
    } else {
        value.to_owned()
    }
}

/// Leaves out each backslash that stands right before `quote`.
fn unescape(s: &[char], quote: char) -> (r: String)
    ensures
        r@ == unescaped(s@, quote),
{
    let mut r = String::new();
    let mut i: usize = 0;
    assert(s@.skip(0) == s@);
    while i < s.len()
        invariant
            i <= s@.len(),
            r@ + unescaped(s@.skip(i as int), quote) == unescaped(s@, quote),
        decreases s@.len() - i,
    {
        let ghost before = r@;
        let ghost rest = s@.skip(i as int);
        if s.len() - i >= 2 && s[i] == '\\' && s[i + 1] == quote {
            r.push(quote);
            assert(rest.skip(2) == s@.skip(i + 2));
            assert(r@ + unescaped(s@.skip(i + 2), quote) == before + unescaped(rest, quote));
            i = i + 2;
        } else {
            r.push(s[i]);
            assert(rest.skip(1) == s@.skip(i + 1));
            assert(r@ + unescaped(s@.skip(i + 1), quote) == before + unescaped(rest, quote));
            i = i + 1;
        }
    }
    assert(unescaped(s@.skip(i as int), quote) == Seq::<char>::empty());
    r
}

/// Tells whether a value begins a value over several lines.
fn begins_block_scalar(value: &str) -> (r: bool)
    ensures
        r == is_block_scalar(value@),
{
    text::same_text(value, "|") || text::same_text(value, ">") || text::same_text(value, "|-")
        || text::same_text(value, ">-") || text::same_text(value, "|+") || text::same_text(
        value,
        ">+",
    )
}

/// The value of `key` in the block of a page.
pub fn extract_frontmatter_value(content: &str, key: &str) -> (r: Option<String>)
    ensures
        text::view_of(r) == value_of(content@, key@),
{
    let chars = match frontmatter_block(content) {
        Some(b) => text::to_chars(b),
        None => {
            return None;
        },
    };
    let prefix_text = text::concat(key, ":");
    let prefix = text::to_chars(&prefix_text);
    let mut rest: &[char] = &chars;
    while rest.len() > 0
        invariant
            block(content@) == Some(chars@),
            prefix@ == key@ + ":"@,
            first_entry(text::lines(rest@), prefix@) == first_entry(text::lines(chars@), prefix@),
        decreases rest@.len(),
    {
        let (line, next) = text::split_line(rest);
        assert(text::lines(rest@)[0] == line@);
        assert(text::lines(rest@).skip(1) == text::lines(next@));
        if let Some(raw) = text::strip_prefix(text::skip_white(line), &prefix) {
            let value = text::to_text(text::trimmed(raw));
            if begins_block_scalar(&value) {
                return None;
            }
            let bare = trim_quotes(&value);
            if bare.as_str().is_empty() {
                return None;
            }
            return Some(bare);
        }
        rest = next;
    }
    None
}

/// The first heading of the page below its block.
pub fn extract_heading_title(content: &str) -> (r: Option<String>)
    ensures
        text::view_of(r) == heading_of(content@),
{
    let chars = text::to_chars(content_without_frontmatter(content));
    let mark = text::to_chars("# ");
    let mut rest: &[char] = &chars;
    while rest.len() > 0
        invariant
            body(content@) == chars@,
            mark@ == "# "@,
            first_heading(text::lines(rest@)) == first_heading(text::lines(chars@)),
        decreases rest@.len(),
    {
        let (line, next) = text::split_line(rest);
        assert(text::lines(rest@)[0] == line@);
        assert(text::lines(rest@).skip(1) == text::lines(next@));
        if let Some(raw) = text::strip_prefix(text::trimmed(line), &mark) {
            let title = text::to_text(text::trimmed(raw));
            if title.as_str().is_empty() {
                return None;
            }
            return Some(title);
        }
        rest = next;
    }
    None
}

// ---------------------------------------------------------------------------------------------
// Laws
// ---------------------------------------------------------------------------------------------

/// A page with a block is its opening fence, the block, the closing fence and the rest; a page
/// without a block is left whole. The block holds no closing fence.
pub proof fn law_page_is_split_without_loss(content: Seq<char>)
    ensures
        match block(content) {
            Some(b) => {
                &&& content == "---\n"@ + b + "\n---\n"@ + body(content)
                &&& text::find(b, "\n---\n"@) is None
            },
            None => body(content) == content,
        },
{
    if block(content) is Some {
        let fence = "\n---\n"@;
        let rest = content.skip("---\n"@.len() as int);
        let end = text::find(rest, fence)->0;
        text::lemma_find_some(rest, fence);
        assert(content == content.take("---\n"@.len() as int) + rest);
        assert(rest.skip(end).take(fence.len() as int) == fence);
        assert(rest == rest.take(end) + fence + rest.skip(end + fence.len()));
        assert(content == "---\n"@ + rest.take(end) + fence + rest.skip(end + fence.len()));
        let b = rest.take(end);
        reveal_strlit("\n---\n");
        assert forall|j: int| 0 <= j <= b.len() implies !#[trigger] text::occurs_at(b, fence, j) by {
            if text::occurs_at(b, fence, j) {
                assert(b.skip(j).take(fence.len() as int) == rest.skip(j).take(fence.len() as int));
                assert(text::occurs_at(rest, fence, j));
            }
        }
        text::lemma_find_none(b, fence);
    }
}

/// A value that is found is not empty, and neither is a heading.
pub proof fn law_found_titles_are_not_empty(content: Seq<char>, key: Seq<char>)
    ensures
        value_of(content, key) matches Some(v) ==> v.len() > 0,
        heading_of(content) matches Some(title) ==> title.len() > 0,
{
}

/// `s` with a backslash put before each `quote`.
pub open spec fn escaped(s: Seq<char>, quote: char) -> Seq<char>
    decreases s.len(),
{
    if s.len() == 0 {
        s
    } else if s[0] == quote {
        seq!['\\', quote] + escaped(s.skip(1), quote)
    } else {
        seq![s[0]] + escaped(s.skip(1), quote)
    }
}

/// `s` escaped and put between quotes.
pub open spec fn quoted(s: Seq<char>, quote: char) -> Seq<char> {
    seq![quote] + escaped(s, quote) + seq![quote]
}

/// Resolving the escapes undoes escaping.
proof fn lemma_unescaped_undoes_escaped(s: Seq<char>, quote: char)
    requires
        quote != '\\',
    ensures
        unescaped(escaped(s, quote), quote) == s,
    decreases s.len(),
{
    if s.len() > 0 {
        let e = escaped(s, quote);
        lemma_unescaped_undoes_escaped(s.skip(1), quote);
        if s[0] == quote {
            assert(e.skip(2) == escaped(s.skip(1), quote));
        } else {
            assert(e.skip(1) == escaped(s.skip(1), quote));
        }
        assert(s == seq![s[0]] + s.skip(1));
    }
}

/// A value that was escaped and quoted is read back as it was.
pub proof fn law_quoting_is_undone(s: Seq<char>, quote: char)
    requires
        quote == '"' || quote == '\'',
    ensures
        unquoted(quoted(s, quote)) == s,
{
    assert(inner(quoted(s, quote)) == escaped(s, quote));
    lemma_unescaped_undoes_escaped(s, quote);
}

/// A page that begins with one entry in its block: a key and a value on one line.
pub open spec fn page_with(key: Seq<char>, value: Seq<char>, rest: Seq<char>) -> Seq<char> {
    "---\n"@ + key + ": "@ + value + "\n---\n"@ + rest
}

/// No line ends within the text.
pub open spec fn is_one_line(s: Seq<char>) -> bool {
    text::is_one_line(s)
}

/// A value that is put between quotes under a key of a page is read back under that key, whatever
/// follows the block, and whatever quotes and backslashes the value holds.
pub proof fn law_quoted_values_are_read_back(
    key: Seq<char>,
    value: Seq<char>,
    quote: char,
    rest: Seq<char>,
)
    requires
        quote == '"' || quote == '\'',
        value.len() > 0,
        is_one_line(key),
        is_one_line(value),
        key.len() > 0 ==> !text::is_white_space(key[0]),
    ensures
        value_of(page_with(key, quoted(value, quote), rest), key) == Some(value),
        body(page_with(key, quoted(value, quote), rest)) == rest,
{
    let raw = quoted(value, quote);
    let line = key + ": "@ + raw;
    let content = page_with(key, raw, rest);
    let tail = line + "\n---\n"@ + rest;
    reveal_strlit("---\n");
    reveal_strlit("\n---\n");
    reveal_strlit(": ");
    reveal_strlit(":");
    lemma_escaped_is_one_line(value, quote);
    assert(is_one_line(line));
    assert(content == "---\n"@ + tail);
    assert(content.take(4) == "---\n"@);
    assert(content.skip(4) == tail);
    lemma_fence_is_found(line, rest);
    let n = line.len() as int;
    assert(tail.take(n) == line);
    assert(tail.skip(n + 5) == rest);
    assert(block(content) == Some(line));
    text::lemma_one_line(line);
    assert(line[0] == if key.len() > 0 { key[0] } else { ':' });
    assert(text::trim_start(line) == line);
    let prefix = key + ":"@;
    assert(line.take(prefix.len() as int) == prefix);
    let entry = seq![' '] + raw;
    assert(line.skip(prefix.len() as int) == entry);
    assert(text::lines(line)[0] == line);
    assert(first_entry(text::lines(line), prefix) == Some(entry));
    assert(entry.skip(1) == raw);
    assert(text::trim_start(raw) == raw);
    assert(text::trim_start(entry) == raw);
    assert(text::trim_end(raw) == raw);
    reveal_strlit("|");
    reveal_strlit(">");
    reveal_strlit("|-");
    reveal_strlit(">-");
    reveal_strlit("|+");
    reveal_strlit(">+");
    assert(raw[0] == quote);
    assert("|-"@[0] == '|' && ">-"@[0] == '>' && "|+"@[0] == '|' && ">+"@[0] == '>');
    law_quoting_is_undone(value, quote);
}

/// Escaping adds no line ending.
proof fn lemma_escaped_is_one_line(s: Seq<char>, quote: char)
    requires
        is_one_line(s),
        quote != '\n',
    ensures
        is_one_line(escaped(s, quote)),
    decreases s.len(),
{
    if s.len() > 0 {
        assert(is_one_line(s.skip(1)));
        lemma_escaped_is_one_line(s.skip(1), quote);
        assert(s[0] != '\n');
    }
}

/// The first closing fence behind a line stands right behind it.
proof fn lemma_fence_is_found(line: Seq<char>, rest: Seq<char>)
    requires
        is_one_line(line),
    ensures
        text::find(line + "\n---\n"@ + rest, "\n---\n"@) == Some(line.len() as int),
{
    let fence = "\n---\n"@;
    let s = line + fence + rest;
    let n = line.len() as int;
    reveal_strlit("\n---\n");
    assert(s.skip(n).take(fence.len() as int) == fence);
    assert forall|j: int| 0 <= j < n implies !#[trigger] text::occurs_at(s, fence, j) by {
        if text::occurs_at(s, fence, j) {
            assert(s.skip(j).take(fence.len() as int)[0] == s[j]);
            assert(s[j] == line[j]);
        }
    }
    text::lemma_find_is_first(s, fence, n);
}

/// A block and what follows it, as a page holds them.
pub open spec fn page_of_block(b: Seq<char>, rest: Seq<char>) -> Seq<char> {
    "---\n"@ + b + "\n---\n"@ + rest
}

/// No closing fence begins within the block.
pub open spec fn is_unfenced(b: Seq<char>) -> bool {
    forall|j: int|
        0 <= j < b.len() ==> #[trigger] (b + "\n---\n"@).subrange(j, j + 5) != "\n---\n"@
}

/// The block of a page is what stands between its fences, and the page goes on behind them. A page
/// that does not begin with a fence, or that has no closing one, is all body.
pub proof fn law_fences_delimit_the_block(b: Seq<char>, rest: Seq<char>, content: Seq<char>)
    ensures
        is_unfenced(b) ==> block(page_of_block(b, rest)) == Some(b),
        is_unfenced(b) ==> body(page_of_block(b, rest)) == rest,
        content.len() < 4 || content.take(4) != "---\n"@ ==> block(content) is None && body(content)
            == content,
        (forall|j: int|
            4 <= j && j + 5 <= content.len() ==> #[trigger] content.subrange(j, j + 5)
                != "\n---\n"@) ==> block(content) is None && body(content) == content,
{
    reveal_strlit("---\n");
    reveal_strlit("\n---\n");
    let fence = "\n---\n"@;
    if is_unfenced(b) {
        let page = page_of_block(b, rest);
        let behind = b + fence + rest;
        let n = b.len() as int;
        assert(page == "---\n"@ + behind);
        assert(page.take(4) == "---\n"@);
        assert(page.skip(4) == behind);
        assert(behind.subrange(n, n + 5) == fence);
        assert forall|j: int| 0 <= j < n implies #[trigger] behind.subrange(j, j + fence.len())
            != fence by {
            assert((b + fence).subrange(j, j + 5) == behind.subrange(j, j + 5));
        }
        text::law_the_first_place_is_found(behind, fence, n);
        assert(behind.take(n) == b);
        assert(behind.skip(n + 5) == rest);
    }
    if forall|j: int|
        4 <= j && j + 5 <= content.len() ==> #[trigger] content.subrange(j, j + 5) != fence {
        if content.len() >= 4 {
            let behind = content.skip(4);
            if text::find(behind, fence) is Some {
                let i = text::find(behind, fence)->0;
                text::law_the_first_place_is_found(behind, fence, i);
                assert(content.subrange(i + 4, i + 4 + 5) == behind.subrange(i, i + 5));
            }
        }
    }
}

/// A line of a block with an entry: white space, the key, a colon, and the value with white space
/// around it.
pub open spec fn entry_line(
    indent: Seq<char>,
    key: Seq<char>,
    before: Seq<char>,
    value: Seq<char>,
    behind: Seq<char>,
) -> Seq<char> {
    indent + key + ":"@ + (before + value + behind)
}

/// None of the lines holds an entry with the key.
pub open spec fn lack_key(s: Seq<char>, key: Seq<char>) -> bool {
    forall|k: int|
        0 <= k < text::lines(s).len() ==> !text::has_prefix(
            text::trim_start(#[trigger] text::lines(s)[k]),
            key + ":"@,
        )
}

/// Lines without the key are passed over.
proof fn lemma_first_entry_passes_over(
    before: Seq<Seq<char>>,
    behind: Seq<Seq<char>>,
    prefix: Seq<char>,
)
    requires
        forall|k: int|
            0 <= k < before.len() ==> !text::has_prefix(
                text::trim_start(#[trigger] before[k]),
                prefix,
            ),
    ensures
        first_entry(before + behind, prefix) == first_entry(behind, prefix),
    decreases before.len(),
{
    if before.len() == 0 {
        assert(before + behind == behind);
    } else {
        let whole = before + behind;
        assert(whole[0] == before[0]);
        assert(whole.skip(1) == before.skip(1) + behind);
        assert forall|k: int| 0 <= k < before.skip(1).len() implies !text::has_prefix(
            text::trim_start(#[trigger] before.skip(1)[k]),
            prefix,
        ) by {
            assert(before.skip(1)[k] == before[k + 1]);
        }
        lemma_first_entry_passes_over(before.skip(1), behind, prefix);
    }
}

/// The first line of a text that begins with a line of its own.
proof fn lemma_first_of_lines(line: Seq<char>, tail: Seq<char>)
    requires
        text::is_one_line(line),
        line.len() > 0,
        tail.len() == 0 || tail[0] == '\n',
    ensures
        text::lines(line + tail).len() > 0,
        text::lines(line + tail)[0] == line || (line.last() == '\r' && text::lines(line + tail)[0]
            == line.drop_last()),
{
    if tail.len() == 0 {
        assert(line + tail == line);
        text::law_lines_end_at_their_endings(line, tail);
    } else {
        let rest = tail.skip(1);
        assert(tail == seq!['\n'] + rest);
        assert(line + tail == line + seq!['\n'] + rest);
        text::law_lines_end_at_their_endings(line, rest);
        if line.last() == '\r' {
            let short = line.drop_last();
            assert(line + tail == short + seq!['\r', '\n'] + rest);
            text::law_lines_end_at_their_endings(short, rest);
        }
    }
}

/// What stands behind the key on the first line with it, white space around it aside, is the text
/// that was put there.
proof fn lemma_entry_is_found(
    head: Seq<char>,
    indent: Seq<char>,
    key: Seq<char>,
    before: Seq<char>,
    value: Seq<char>,
    behind: Seq<char>,
    tail: Seq<char>,
)
    requires
        head.len() == 0 || head.last() == '\n',
        lack_key(head, key),
        text::is_blank(indent),
        text::is_blank(before),
        text::is_blank(behind),
        text::is_one_line(entry_line(indent, key, before, value, behind)),
        key.len() > 0 ==> !text::is_white_space(key[0]),
        text::has_bare_ends(value),
        tail.len() == 0 || tail[0] == '\n',
    ensures
        ({
            let b = head + entry_line(indent, key, before, value, behind) + tail;
            let raw = first_entry(text::lines(b), key + ":"@);
            raw is Some && text::trim(raw->0) == value
        }),
{
    reveal_strlit(":");
    let raw = before + value + behind;
    let line = entry_line(indent, key, before, value, behind);
    let prefix = key + ":"@;
    let b = head + line + tail;
    assert(b == head + (line + tail));
    text::lemma_lines_append(head, line + tail);
    lemma_first_entry_passes_over(text::lines(head), text::lines(line + tail), prefix);
    lemma_first_of_lines(line, tail);
    text::law_trim_removes_what_is_around(before, value, behind);
    let first = text::lines(line + tail)[0];
    if first == line {
        let bare = prefix + raw;
        assert(line == indent + bare);
        lemma_start_is_trimmed(indent, prefix, raw);
        text::law_prefix_and_rest_are_the_whole(bare, prefix, raw);
    } else {
        // The carriage return of the line's ending is white space behind the value.
        let n = raw.len() as int;
        assert(n > 0) by {
            if n == 0 {
                assert(line.last() == ':');
            }
        }
        assert(line.last() == raw.last());
        let short = raw.drop_last();
        if behind.len() > 0 {
            let cut = behind.drop_last();
            assert(short == before + value + cut);
            assert forall|i: int| 0 <= i < cut.len() implies text::is_white_space(
                #[trigger] cut[i],
            ) by {
                assert(cut[i] == behind[i]);
            }
            text::law_trim_removes_what_is_around(before, value, cut);
        } else if value.len() > 0 {
            assert(raw.last() == value.last());
        } else {
            let cut = before.drop_last();
            assert(short == cut + value + behind);
            assert forall|i: int| 0 <= i < cut.len() implies text::is_white_space(
                #[trigger] cut[i],
            ) by {
                assert(cut[i] == before[i]);
            }
            text::law_trim_removes_what_is_around(cut, value, behind);
        }
        let bare = prefix + short;
        assert(line.drop_last() == indent + bare);
        lemma_start_is_trimmed(indent, prefix, short);
        text::law_prefix_and_rest_are_the_whole(bare, prefix, short);
    }
}

/// White space before a key is trimmed, and nothing else.
proof fn lemma_start_is_trimmed(indent: Seq<char>, prefix: Seq<char>, raw: Seq<char>)
    requires
        text::is_blank(indent),
        prefix.len() > 0,
        !text::is_white_space(prefix[0]),
    ensures
        text::trim_start(indent + (prefix + raw)) == prefix + raw,
{
    let bare = prefix + raw;
    assert(bare[0] == prefix[0]);
    text::lemma_trim_start_skips(indent, bare);
}

/// The value under a key, with all that may stand around it in a page: `head` are the lines of the
/// block before the entry, none with this key, `tail` is what follows the entry in the block, and
/// `rest` is what follows the block.
pub open spec fn is_entry_in(
    content: Seq<char>,
    key: Seq<char>,
    value: Seq<char>,
    head: Seq<char>,
    indent: Seq<char>,
    before: Seq<char>,
    behind: Seq<char>,
    tail: Seq<char>,
    rest: Seq<char>,
) -> bool {
    let line = entry_line(indent, key, before, value, behind);
    &&& content == page_of_block(head + line + tail, rest)
    &&& is_unfenced(head + line + tail)
    &&& head.len() == 0 || head.last() == '\n'
    &&& lack_key(head, key)
    &&& tail.len() == 0 || tail[0] == '\n'
    &&& text::is_blank(indent)
    &&& text::is_blank(before)
    &&& text::is_blank(behind)
    &&& text::is_one_line(line)
    &&& key.len() > 0 ==> !text::is_white_space(key[0])
    &&& text::has_bare_ends(value)
}

/// The value of an entry is read as its text: the first entry with the key decides, whatever lines
/// stand before and behind it.
proof fn lemma_value_is_read(
    content: Seq<char>,
    key: Seq<char>,
    value: Seq<char>,
    head: Seq<char>,
    indent: Seq<char>,
    before: Seq<char>,
    behind: Seq<char>,
    tail: Seq<char>,
    rest: Seq<char>,
)
    requires
        is_entry_in(content, key, value, head, indent, before, behind, tail, rest),
    ensures
        value_of(content, key) == if is_block_scalar(value) || unquoted(value).len() == 0 {
            None
        } else {
            Some(unquoted(value))
        },
{
    let b = head + entry_line(indent, key, before, value, behind) + tail;
    law_fences_delimit_the_block(b, rest, content);
    lemma_entry_is_found(head, indent, key, before, value, behind, tail);
}

/// The value under a key is the text of its entry without the quotes around it. The first entry with
/// the key decides, whatever lines stand before and behind it. One that holds nothing, and the mark
/// of a value over several lines, count as absent.
pub proof fn law_first_entry_decides(
    content: Seq<char>,
    key: Seq<char>,
    value: Seq<char>,
    head: Seq<char>,
    indent: Seq<char>,
    before: Seq<char>,
    behind: Seq<char>,
    tail: Seq<char>,
    rest: Seq<char>,
)
    requires
        is_entry_in(content, key, value, head, indent, before, behind, tail, rest),
    ensures
        value_of(content, key) == if unquoted(value).len() == 0 || value == "|"@ || value == ">"@
            || value == "|-"@ || value == ">-"@ || value == "|+"@ || value == ">+"@ {
            None
        } else {
            Some(unquoted(value))
        },
{
    lemma_value_is_read(content, key, value, head, indent, before, behind, tail, rest);
}

/// A value without quotes around it is read back whole, wherever its entry stands in the block and
/// whatever it holds. An empty value and the mark of a value over several lines count as absent.
pub proof fn law_plain_values_are_read_back(
    content: Seq<char>,
    key: Seq<char>,
    value: Seq<char>,
    head: Seq<char>,
    indent: Seq<char>,
    before: Seq<char>,
    behind: Seq<char>,
    tail: Seq<char>,
    rest: Seq<char>,
)
    requires
        is_entry_in(content, key, value, head, indent, before, behind, tail, rest),
        value.len() < 2 || value[0] != value.last() || (value[0] != '"' && value[0] != '\''),
    ensures
        value_of(content, key) == if value.len() == 0 || value == "|"@ || value == ">"@ || value
            == "|-"@ || value == ">-"@ || value == "|+"@ || value == ">+"@ {
            None
        } else {
            Some(value)
        },
{
    lemma_value_is_read(content, key, value, head, indent, before, behind, tail, rest);
}

/// A value between quotes is read back as it was before it was escaped and quoted, wherever its
/// entry stands in the block. One that holds nothing counts as absent.
pub proof fn law_quoted_values_are_read_back_anywhere(
    content: Seq<char>,
    key: Seq<char>,
    value: Seq<char>,
    quote: char,
    head: Seq<char>,
    indent: Seq<char>,
    before: Seq<char>,
    behind: Seq<char>,
    tail: Seq<char>,
    rest: Seq<char>,
)
    requires
        quote == '"' || quote == '\'',
        is_entry_in(
            content,
            key,
            quoted(value, quote),
            head,
            indent,
            before,
            behind,
            tail,
            rest,
        ),
    ensures
        value_of(content, key) == if value.len() == 0 {
            None
        } else {
            Some(value)
        },
{
    let raw = quoted(value, quote);
    lemma_value_is_read(content, key, raw, head, indent, before, behind, tail, rest);
    law_quoting_is_undone(value, quote);
    lemma_quoted_is_no_mark(raw, quote);
}

/// What stands between quotes without an escaped quote in it is the value.
pub proof fn law_values_between_quotes_are_read_whole(
    content: Seq<char>,
    key: Seq<char>,
    value: Seq<char>,
    quote: char,
    head: Seq<char>,
    indent: Seq<char>,
    before: Seq<char>,
    behind: Seq<char>,
    tail: Seq<char>,
    rest: Seq<char>,
)
    requires
        quote == '"' || quote == '\'',
        forall|i: int| 0 <= i < value.len() - 1 && #[trigger] value[i] == '\\' ==> value[i + 1]
            != quote,
        is_entry_in(
            content,
            key,
            seq![quote] + value + seq![quote],
            head,
            indent,
            before,
            behind,
            tail,
            rest,
        ),
    ensures
        value_of(content, key) == if value.len() == 0 {
            None
        } else {
            Some(value)
        },
{
    let raw = seq![quote] + value + seq![quote];
    lemma_value_is_read(content, key, raw, head, indent, before, behind, tail, rest);
    assert(raw[0] == quote && raw.last() == quote);
    assert(inner(raw) == value);
    lemma_nothing_to_unescape(value, quote);
    lemma_quoted_is_no_mark(raw, quote);
}

/// A value between quotes is no mark of a value over several lines.
proof fn lemma_quoted_is_no_mark(raw: Seq<char>, quote: char)
    requires
        raw.len() > 0,
        raw[0] == quote,
        quote == '"' || quote == '\'',
    ensures
        !is_block_scalar(raw),
{
    reveal_strlit("|");
    reveal_strlit(">");
    reveal_strlit("|-");
    reveal_strlit(">-");
    reveal_strlit("|+");
    reveal_strlit(">+");
    assert("|-"@[0] == '|' && ">-"@[0] == '>' && "|+"@[0] == '|' && ">+"@[0] == '>');
    assert("|"@[0] == '|' && ">"@[0] == '>');
}

/// A text without an escaped quote is left as it is.
proof fn lemma_nothing_to_unescape(s: Seq<char>, quote: char)
    requires
        forall|i: int| 0 <= i < s.len() - 1 && #[trigger] s[i] == '\\' ==> s[i + 1] != quote,
    ensures
        unescaped(s, quote) == s,
    decreases s.len(),
{
    if s.len() > 0 {
        let rest = s.skip(1);
        assert forall|i: int| 0 <= i < rest.len() - 1 && #[trigger] rest[i] == '\\' implies rest[i
            + 1] != quote by {
            assert(s[i + 1] == '\\');
        }
        lemma_nothing_to_unescape(rest, quote);
        assert(s == seq![s[0]] + rest);
        if s.len() >= 2 && s[0] == '\\' {
            assert(s[1] != quote);
        }
    }
}

/// Quotes are removed only where both ends of a value have the same one. Between them each escaped
/// quote becomes a quote, from left to right, and everything else stays.
pub proof fn law_only_quotes_are_removed(plain: Seq<char>, rest: Seq<char>, quote: char)
    requires
        quote == '"' || quote == '\'',
        forall|i: int| 0 <= i < plain.len() - 1 && #[trigger] plain[i] == '\\' ==> plain[i + 1]
            != quote,
    ensures
        unquoted(seq![quote] + plain + seq![quote]) == plain,
        unquoted(seq![quote] + (plain + seq!['\\', quote] + rest) + seq![quote]) == plain
            + seq![quote] + unquoted(seq![quote] + rest + seq![quote]),
        plain.len() < 2 || plain[0] != plain.last() || (plain[0] != '"' && plain[0] != '\'')
            ==> unquoted(plain) == plain,
{
    lemma_nothing_to_unescape(plain, quote);
    let one = seq![quote] + plain + seq![quote];
    assert(one[0] == quote && one.last() == quote && inner(one) == plain);
    let more = plain + seq!['\\', quote] + rest;
    let two = seq![quote] + more + seq![quote];
    assert(two[0] == quote && two.last() == quote && inner(two) == more);
    let three = seq![quote] + rest + seq![quote];
    assert(three[0] == quote && three.last() == quote && inner(three) == rest);
    lemma_unescaped_goes_on(plain, rest, quote);
}

/// The first escaped quote becomes a quote, and what stands before it stays.
proof fn lemma_unescaped_goes_on(plain: Seq<char>, rest: Seq<char>, quote: char)
    requires
        quote != '\\',
        forall|i: int| 0 <= i < plain.len() - 1 && #[trigger] plain[i] == '\\' ==> plain[i + 1]
            != quote,
    ensures
        unescaped(plain + seq!['\\', quote] + rest, quote) == plain + seq![quote] + unescaped(
            rest,
            quote,
        ),
    decreases plain.len(),
{
    let whole = plain + seq!['\\', quote] + rest;
    if plain.len() == 0 {
        assert(whole[0] == '\\' && whole[1] == quote);
        assert(whole.skip(2) == rest);
        assert(plain + seq![quote] + unescaped(rest, quote) == seq![quote] + unescaped(rest, quote));
    } else {
        let next = plain.skip(1);
        assert forall|i: int| 0 <= i < next.len() - 1 && #[trigger] next[i] == '\\' implies next[i
            + 1] != quote by {
            assert(plain[i + 1] == '\\');
        }
        lemma_unescaped_goes_on(next, rest, quote);
        assert(whole[0] == plain[0]);
        assert(whole.skip(1) == next + seq!['\\', quote] + rest);
        if plain[0] == '\\' {
            if plain.len() >= 2 {
                assert(plain[1] != quote);
                assert(whole[1] == plain[1]);
            } else {
                assert(whole[1] == '\\');
            }
        }
        assert(plain == seq![plain[0]] + next);
        assert(seq![plain[0]] + (next + seq![quote] + unescaped(rest, quote)) == plain
            + seq![quote] + unescaped(rest, quote));
    }
}

/// A key that no line of the block holds has no value, and a page without a block has no values.
pub proof fn law_missing_keys_have_no_value(
    b: Seq<char>,
    rest: Seq<char>,
    content: Seq<char>,
    key: Seq<char>,
)
    ensures
        is_unfenced(b) && lack_key(b, key) ==> value_of(page_of_block(b, rest), key) is None,
        content.len() < 4 || content.take(4) != "---\n"@ ==> value_of(content, key) is None,
        (forall|j: int|
            4 <= j && j + 5 <= content.len() ==> #[trigger] content.subrange(j, j + 5)
                != "\n---\n"@) ==> value_of(content, key) is None,
{
    law_fences_delimit_the_block(b, rest, content);
    if lack_key(b, key) {
        let none = Seq::<Seq<char>>::empty();
        assert(text::lines(b) + none == text::lines(b));
        lemma_first_entry_passes_over(text::lines(b), none, key + ":"@);
    }
}

/// None of the lines is a heading.
pub open spec fn lack_heading(s: Seq<char>) -> bool {
    forall|k: int|
        0 <= k < text::lines(s).len() ==> !text::has_prefix(
            text::trim(#[trigger] text::lines(s)[k]),
            "# "@,
        )
}

/// Lines that are no headings are passed over.
proof fn lemma_first_heading_passes_over(before: Seq<Seq<char>>, behind: Seq<Seq<char>>)
    requires
        forall|k: int|
            0 <= k < before.len() ==> !text::has_prefix(text::trim(#[trigger] before[k]), "# "@),
    ensures
        first_heading(before + behind) == first_heading(behind),
    decreases before.len(),
{
    if before.len() == 0 {
        assert(before + behind == behind);
    } else {
        let whole = before + behind;
        assert(whole[0] == before[0]);
        assert(whole.skip(1) == before.skip(1) + behind);
        assert forall|k: int| 0 <= k < before.skip(1).len() implies !text::has_prefix(
            text::trim(#[trigger] before.skip(1)[k]),
            "# "@,
        ) by {
            assert(before.skip(1)[k] == before[k + 1]);
        }
        lemma_first_heading_passes_over(before.skip(1), behind);
    }
}

/// The first heading of a page is read back whole, white space around it aside, wherever it stands
/// below the block and whatever follows it. A page without a heading has none.
pub proof fn law_headings_are_read_back(
    content: Seq<char>,
    head: Seq<char>,
    indent: Seq<char>,
    before: Seq<char>,
    title: Seq<char>,
    behind: Seq<char>,
    tail: Seq<char>,
)
    requires
        head.len() == 0 || head.last() == '\n',
        lack_heading(head),
        tail.len() == 0 || tail[0] == '\n',
        text::is_blank(indent),
        text::is_blank(before),
        text::is_blank(behind),
        text::has_bare_ends(title),
        title.len() > 0,
        text::is_one_line(indent + ("# "@ + before + title) + behind),
    ensures
        body(content) == head + (indent + ("# "@ + before + title) + behind) + tail ==> heading_of(
            content,
        ) == Some(title),
        lack_heading(body(content)) ==> heading_of(content) is None,
{
    reveal_strlit("# ");
    let bare = "# "@ + before + title;
    let line = indent + bare + behind;
    if body(content) == head + line + tail {
        let s = head + line + tail;
        assert(s == head + (line + tail));
        text::lemma_lines_append(head, line + tail);
        lemma_first_heading_passes_over(text::lines(head), text::lines(line + tail));
        lemma_first_of_lines(line, tail);
        assert(bare[0] == '#' && bare.last() == title.last());
        let first = text::lines(line + tail)[0];
        if first == line {
            text::law_trim_removes_what_is_around(indent, bare, behind);
        } else {
            if behind.len() == 0 {
                assert(line.last() == title.last());
            }
            let cut = behind.drop_last();
            assert(line.drop_last() == indent + bare + cut);
            assert forall|i: int| 0 <= i < cut.len() implies text::is_white_space(
                #[trigger] cut[i],
            ) by {
                assert(cut[i] == behind[i]);
            }
            text::law_trim_removes_what_is_around(indent, bare, cut);
        }
        let raw = before + title;
        assert(bare == "# "@ + raw);
        text::law_prefix_and_rest_are_the_whole(bare, "# "@, raw);
        let nothing = Seq::<char>::empty();
        assert(before + title + nothing == raw);
        text::law_trim_removes_what_is_around(before, title, nothing);
    }
    if lack_heading(body(content)) {
        let none = Seq::<Seq<char>>::empty();
        assert(text::lines(body(content)) + none == text::lines(body(content)));
        lemma_first_heading_passes_over(text::lines(body(content)), none);
    }
}

/// A value that stands without quotes under a key of a page is read back under that key, whatever
/// it holds and whatever follows the block.
pub proof fn law_unquoted_values_are_read_back(key: Seq<char>, value: Seq<char>, rest: Seq<char>)
    requires
        is_one_line(key),
        key.len() > 0 ==> !text::is_white_space(key[0]),
        is_one_line(value),
        value.len() > 0,
        !text::is_white_space(value[0]),
        !text::is_white_space(value.last()),
        value != "|"@ && value != ">"@ && value != "|-"@ && value != ">-"@ && value != "|+"@ && value
            != ">+"@,
        value.len() < 2 || value[0] != value.last() || (value[0] != '"' && value[0] != '\''),
    ensures
        value_of(page_with(key, value, rest), key) == Some(value),
        body(page_with(key, value, rest)) == rest,
{
    let none = Seq::<char>::empty();
    let space = seq![' '];
    let line = entry_line(none, key, space, value, none);
    reveal_strlit("---\n");
    reveal_strlit("\n---\n");
    reveal_strlit(": ");
    reveal_strlit(":");
    assert(line == key + ": "@ + value);
    let b = none + line + none;
    assert(b == line);
    assert forall|j: int| 0 <= j < b.len() implies #[trigger] (b + "\n---\n"@).subrange(j, j + 5)
        != "\n---\n"@ by {
        assert((b + "\n---\n"@).subrange(j, j + 5)[0] == line[j]);
    }
    assert(page_with(key, value, rest) == page_of_block(b, rest));
    law_fences_delimit_the_block(b, rest, none);
    law_plain_values_are_read_back(
        page_with(key, value, rest),
        key,
        value,
        none,
        none,
        space,
        none,
        none,
        rest,
    );
}

} // verus!

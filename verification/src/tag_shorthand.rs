//! The tag shorthand: a first line such as `a1, bbb, 14pt` stands for
//! `#show: tag.with("a1", "bbb", 14pt)`.

use vstd::prelude::*;
use crate::text;

verus! {

/// An ASCII digit.
pub open spec fn is_digit(c: char) -> bool {
    '0' <= c <= '9'
}

/// A character of a tag: an ASCII letter or digit, `-`, `_` or `.`.
pub open spec fn is_tag_char(c: char) -> bool {
    ||| 'a' <= c <= 'z'
    ||| 'A' <= c <= 'Z'
    ||| is_digit(c)
    ||| c == '-'
    ||| c == '_'
    ||| c == '.'
}

/// A tag: at least one character, each of them a [`is_tag_char`].
pub open spec fn is_tag(s: Seq<char>) -> bool {
    s.len() > 0 && forall|i: int| 0 <= i < s.len() ==> is_tag_char(#[trigger] s[i])
}

/// How a tag is written among the arguments of `tag.with`: as it is where it begins with a digit
/// (a length), otherwise as a string literal.
pub open spec fn tag_arg(tag: Seq<char>) -> Seq<char> {
    if is_digit(tag[0]) {
        tag
    } else {
        "\""@ + tag + "\""@
    }
}

/// The physical first line of a source, without its line break, and what follows the break.
pub open spec fn first_line(source: Seq<char>) -> (Seq<char>, Option<Seq<char>>) {
    let i = text::find(source, '\n');
    if i < source.len() {
        let line = source.take(i);
        (
            if line.len() > 0 && line.last() == '\r' {
                line.drop_last()
            } else {
                line
            },
            Some(source.skip(i + 1)),
        )
    } else {
        (source, None)
    }
}

/// The comma separated segments of a line, trimmed, without a blank one at the end.
pub open spec fn line_segments(line: Seq<char>) -> Seq<Seq<char>> {
    let segments = text::split(line, ',').map_values(|s: Seq<char>| text::trimmed(s));
    if segments.last().len() == 0 {
        segments.drop_last()
    } else {
        segments
    }
}

/// Whether a line is a tag shorthand: it has a comma, and its segments are tags, at least one.
pub open spec fn is_shorthand(line: Seq<char>) -> bool {
    let segments = line_segments(line);
    &&& line.contains(',')
    &&& segments.len() > 0
    &&& forall|i: int| 0 <= i < segments.len() ==> is_tag(#[trigger] segments[i])
}

/// The tags that a line stands for, where it is a tag shorthand.
pub open spec fn line_tags(line: Seq<char>) -> Option<Seq<Seq<char>>> {
    if is_shorthand(line) {
        Some(line_segments(line))
    } else {
        None
    }
}

/// The Typst line that applies `tags`.
pub open spec fn show_line(tags: Seq<Seq<char>>) -> Seq<char> {
    "#show: tag.with("@ + text::joined(
        tags.map_values(|t: Seq<char>| tag_arg(t)),
        ", "@,
    ) + ")"@
}

/// A source with its first line, where that is a tag shorthand, replaced by the Typst line.
pub open spec fn rewritten(source: Seq<char>) -> Seq<char> {
    let (line, rest) = first_line(source);
    match line_tags(line) {
        None => source,
        Some(tags) => match rest {
            None => show_line(tags),
            Some(body) => show_line(tags) + "\n"@ + body,
        },
    }
}

/// Whether `c` may stand in a tag.
pub fn is_tag_shorthand_token_char(c: char) -> (r: bool)
    ensures
        r == is_tag_char(c),
{
    ('a' <= c && c <= 'z') || ('A' <= c && c <= 'Z') || ('0' <= c && c <= '9') || c == '-' || c
        == '_' || c == '.'
}

/// Whether `s` is a tag.
pub fn is_tag_shorthand_token(s: &str) -> (r: bool)
    ensures
        r == is_tag(s@),
{
    let chars = text::chars_of(s);
    let mut i: usize = 0;
    while i < chars.len()
        invariant
            chars@ == s@,
            i <= chars.len(),
            forall|j: int| 0 <= j < i ==> is_tag_char(#[trigger] s@[j]),
        decreases chars.len() - i,
    {
        if !is_tag_shorthand_token_char(chars[i]) {
            return false;
        }
        i = i + 1;
    }
    chars.len() > 0
}

/// Writes a tag as an argument of `tag.with`.
pub fn format_tag_with_arg(token: &str) -> (r: String)
    requires
        is_tag(token@),
    ensures
        r@ == tag_arg(token@),
{
    let head: char = token.get_char(0);
    if '0' <= head && head <= '9' {
        token.to_owned()
    } else {
        "\"".to_owned().concat(token).concat("\"")
    }
}

/// Parts a source into its physical first line and what follows; `\n` and `\r\n` end a line.
pub fn split_first_line(source: &str) -> (r: (&str, Option<&str>))
    ensures
        r.0@ == first_line(source@).0,
        match r.1 {
            None => first_line(source@).1 is None,
            Some(rest) => first_line(source@).1 == Some(rest@),
        },
{
    let n: usize = source.unicode_len();
    let i: usize = text::find_char(source, '\n');
    if i == n {
        return (source, None);
    }
    let rest = source.substring_char(i + 1, n);
    proof {
        assert(source@.subrange(0, i as int) == source@.take(i as int));
        assert(source@.subrange(i + 1, n as int) == source@.skip(i + 1));
    }
    if i > 0 && source.get_char(i - 1) == '\r' {
        proof {
            assert(source@.subrange(0, i - 1) == source@.take(i as int).drop_last());
        }
        (source.substring_char(0, i - 1), Some(rest))
    } else {
        (source.substring_char(0, i), Some(rest))
    }
}

/// The tags that a line stands for; `None` where the line is not a tag shorthand.
pub fn parse_tag_shorthand_line(first_line: &str) -> (r: Option<Vec<String>>)
    ensures
        match r {
            None => line_tags(first_line@) is None,
            Some(tags) => line_tags(first_line@) == Some(text::views(tags@)),
        },
{
    let n: usize = first_line.unicode_len();
    let comma: usize = text::find_char(first_line, ',');
    proof {
        text::lemma_find(first_line@, ',');
    }
    if comma == n {
        return None;
    }
    proof {
        assert(first_line@[comma as int] == ',');
    }
    let pieces = text::split_text(first_line, ',');
    let ghost all = text::split(first_line@, ',').map_values(|s: Seq<char>| text::trimmed(s));
    let mut tokens: Vec<String> = Vec::new();
    let mut i: usize = 0;
    while i < pieces.len()
        invariant
            i <= pieces.len(),
            text::views(pieces@) == text::split(first_line@, ','),
            all == text::split(first_line@, ',').map_values(|s: Seq<char>| text::trimmed(s)),
            text::views(tokens@) == all.take(i as int),
        decreases pieces.len() - i,
    {
        let token = text::trim(pieces[i].as_str()).to_owned();
        let ghost before = text::views(tokens@);
        tokens.push(token);
        proof {
            assert(text::views(pieces@)[i as int] == pieces@[i as int]@);
            assert(text::views(tokens@) == before.push(token@));
            assert(all.take(i + 1) == all.take(i as int).push(all[i as int]));
        }
        i = i + 1;
    }
    proof {
        assert(all.take(i as int) == all);
        assert(tokens@.len() == text::views(tokens@).len());
        assert(all.len() > 0);
        assert(text::views(tokens@).last() == tokens@.last()@);
    }
    if tokens[tokens.len() - 1].as_str().is_empty() {
        let ghost before = text::views(tokens@);
        let _ = tokens.pop();
        proof {
            assert(text::views(tokens@) == before.drop_last());
        }
    }
    proof {
        assert(text::views(tokens@) == line_segments(first_line@));
    }
    if tokens.len() == 0 {
        return None;
    }
    let mut k: usize = 0;
    while k < tokens.len()
        invariant
            k <= tokens.len(),
            text::views(tokens@) == line_segments(first_line@),
            forall|j: int|
                0 <= j < k ==> is_tag(#[trigger] line_segments(first_line@)[j]),
        decreases tokens.len() - k,
    {
        proof {
            assert(line_segments(first_line@)[k as int] == tokens@[k as int]@);
        }
        if !is_tag_shorthand_token(tokens[k].as_str()) {
            return None;
        }
        k = k + 1;
    }
    Some(tokens)
}

/// A line of white space alone is no tag shorthand.
proof fn lemma_blank_line(line: Seq<char>)
    requires
        text::trimmed(line).len() == 0,
    ensures
        line_tags(line) is None,
{
    text::lemma_blank(line);
}

/// Replaces the physical first line by a `#show: tag.with(...)` line where it is a tag shorthand;
/// every other source is left as it is.
pub fn rewrite_tag_shorthand(source: &str) -> (r: String)
    ensures
        r@ == rewritten(source@),
{
    let (first, rest) = split_first_line(source);
    if text::trim(first).is_empty() {
        proof {
            lemma_blank_line(first@);
        }
        return source.to_owned();
    }
    let tokens = match parse_tag_shorthand_line(first) {
        None => {
            return source.to_owned();
        },
        Some(tokens) => tokens,
    };
    let ghost tags = text::views(tokens@);
    let ghost args_spec = tags.map_values(|t: Seq<char>| tag_arg(t));
    let mut args: Vec<String> = Vec::new();
    let mut i: usize = 0;
    while i < tokens.len()
        invariant
            i <= tokens.len(),
            tags == text::views(tokens@),
            args_spec == tags.map_values(|t: Seq<char>| tag_arg(t)),
            forall|j: int| 0 <= j < tags.len() ==> is_tag(#[trigger] tags[j]),
            text::views(args@) == args_spec.take(i as int),
        decreases tokens.len() - i,
    {
        proof {
            assert(tags[i as int] == tokens@[i as int]@);
        }
        let arg = format_tag_with_arg(tokens[i].as_str());
        let ghost before = text::views(args@);
        args.push(arg);
        proof {
            assert(text::views(args@) == before.push(arg@));
            assert(args_spec.take(i + 1) == args_spec.take(i as int).push(args_spec[i as int]));
        }
        i = i + 1;
    }
    proof {
        assert(args_spec.take(i as int) == args_spec);
    }
    let line = "#show: tag.with(".to_owned().concat(text::join_texts(&args, ", ").as_str()).concat(
        ")",
    );
    match rest {
        None => line,
        Some(body) => line.concat("\n").concat(body),
    }
}

/// The characters of a `#show: tag.with(...)` line hold no line break, and the line begins with
/// `#` and ends with `)`.
proof fn lemma_show_line(tags: Seq<Seq<char>>)
    requires
        forall|i: int| 0 <= i < tags.len() ==> is_tag(#[trigger] tags[i]),
    ensures
        show_line(tags).len() > 1,
        show_line(tags)[0] == '#',
        show_line(tags).last() == ')',
        forall|i: int| 0 <= i < show_line(tags).len() ==> #[trigger] show_line(tags)[i] != '\n',
{
    reveal_strlit("#show: tag.with(");
    reveal_strlit(")");
    reveal_strlit(", ");
    reveal_strlit("\"");
    let args = tags.map_values(|t: Seq<char>| tag_arg(t));
    let inner = text::joined(args, ", "@);
    let one_line = |c: char| c != '\n';
    assert forall|i: int, j: int| 0 <= i < args.len() && 0 <= j < args[i].len() implies one_line(
        #[trigger] args[i][j],
    ) by {
        assert(is_tag(tags[i]));
        if !is_digit(tags[i][0]) {
            if 0 < j < args[i].len() - 1 {
                assert(args[i][j] == tags[i][j - 1]);
            }
        } else {
            assert(args[i][j] == tags[i][j]);
        }
    }
    text::lemma_joined_all(args, ", "@, one_line);
    let open = "#show: tag.with("@;
    assert forall|i: int| 0 <= i < show_line(tags).len() implies #[trigger] show_line(tags)[i]
        != '\n' by {
        if open.len() <= i < open.len() + inner.len() {
            assert(show_line(tags)[i] == inner[i - open.len()]);
            assert(one_line(inner[i - open.len()]));
        }
    }
}

/// A line that begins with `#` is no tag shorthand.
proof fn lemma_hash_line(line: Seq<char>)
    requires
        line.len() > 0,
        line[0] == '#',
    ensures
        line_tags(line) is None,
{
    if line.contains(',') {
        text::lemma_find(line, ',');
        let i = text::find(line, ',');
        assert(0 < i < line.len());
        let head = line.take(i);
        assert(text::split(line, ',')[0] == head);
        assert(text::split(line.skip(i + 1), ',').len() >= 1);
        assert(text::split(line, ',').len() >= 2);
        assert(text::trimmed_start(head) == head);
        text::lemma_trimmed_end(head);
        let segment = text::trimmed(head);
        if segment.len() == 0 {
            assert(text::is_white_space(head[0]));
        }
        assert(segment[0] == '#');
        assert(line_segments(line)[0] == segment);
        assert(!is_tag(segment));
    }
}

/// Where the first line of a source is a tag shorthand, the rewritten source begins with the
/// `#show: tag.with(...)` line of its tags; in every case what follows the first line stays.
pub proof fn law_rewrite_keeps_body(source: Seq<char>)
    ensures
        first_line(rewritten(source)).1 == first_line(source).1,
        match line_tags(first_line(source).0) {
            None => first_line(rewritten(source)).0 == first_line(source).0,
            Some(tags) => first_line(rewritten(source)).0 == show_line(tags),
        },
{
    let (line, rest) = first_line(source);
    if let Some(tags) = line_tags(line) {
        lemma_show_line(tags);
        let out = rewritten(source);
        let shown = show_line(tags);
        if let Some(body) = rest {
            reveal_strlit("\n");
            assert forall|j: int| 0 <= j < shown.len() implies out[j] != '\n' by {
                assert(out[j] == shown[j]);
            }
            text::lemma_find_is(out, '\n', shown.len() as int);
            assert(out.take(shown.len() as int) == shown);
            assert(out.skip(shown.len() as int + 1) == body);
        } else {
            text::lemma_find_is(out, '\n', shown.len() as int);
        }
    }
}

/// A rewritten source is not rewritten again.
pub proof fn law_rewrite_idempotent(source: Seq<char>)
    ensures
        rewritten(rewritten(source)) == rewritten(source),
{
    law_rewrite_keeps_body(source);
    if let Some(tags) = line_tags(first_line(source).0) {
        lemma_show_line(tags);
        lemma_hash_line(show_line(tags));
    }
}

/// A tag needs no escape inside a string literal: it holds no quotation mark, no backslash and no
/// line break.
pub proof fn law_tags_need_no_escape(line: Seq<char>, k: int, i: int)
    requires
        line_tags(line) is Some,
        0 <= k < line_tags(line)->0.len(),
        0 <= i < line_tags(line)->0[k].len(),
    ensures
        line_tags(line)->0[k][i] != '"',
        line_tags(line)->0[k][i] != '\\',
        line_tags(line)->0[k][i] != '\n',
{
    assert(is_tag(line_segments(line)[k]));
}

/// Different tags are written as different arguments.
pub proof fn law_tag_args_distinct(a: Seq<char>, b: Seq<char>)
    requires
        is_tag(a),
        is_tag(b),
        tag_arg(a) == tag_arg(b),
    ensures
        a == b,
{
    reveal_strlit("\"");
    assert(is_tag_char(a[0]) && is_tag_char(b[0]));
    if !is_digit(a[0]) {
        assert(tag_arg(a)[0] == '"');
        assert(!is_digit(b[0]));
        assert(tag_arg(a).subrange(1, tag_arg(a).len() - 1) == a);
        assert(tag_arg(b).subrange(1, tag_arg(b).len() - 1) == b);
    } else if !is_digit(b[0]) {
        assert(tag_arg(b)[0] == '"');
    }
}

/// A tag has no comma and no white space at its ends.
proof fn lemma_tag(tag: Seq<char>)
    requires
        is_tag(tag),
    ensures
        forall|i: int| 0 <= i < tag.len() ==> tag[i] != ',',
        text::trimmed(tag) == tag,
        text::trimmed(" "@ + tag) == tag,
{
    reveal_strlit(" ");
    assert(is_tag_char(tag[0]) && is_tag_char(tag.last()));
    assert((" "@ + tag).skip(1) == tag);
    assert(text::trimmed_start(tag) == tag);
    assert(text::trimmed_end(tag) == tag);
    assert forall|i: int| 0 <= i < tag.len() implies tag[i] != ',' by {
        assert(is_tag_char(tag[i]));
    }
}

/// The pieces of a list of tags written with `, ` between them trim to the tags.
proof fn lemma_tag_list_segments(tags: Seq<Seq<char>>)
    requires
        tags.len() > 0,
        forall|i: int| 0 <= i < tags.len() ==> is_tag(#[trigger] tags[i]),
    ensures
        text::split(text::joined(tags, ", "@), ',').map_values(
            |s: Seq<char>| text::trimmed(s),
        ) == tags,
    decreases tags.len(),
{
    reveal_strlit(", ");
    reveal_strlit(" ");
    let list = text::joined(tags, ", "@);
    let f = |s: Seq<char>| text::trimmed(s);
    lemma_tag(tags.last());
    if tags.len() == 1 {
        text::lemma_split_single(tags[0], ',');
        assert(text::split(list, ',').map_values(f) == tags);
    } else {
        let init = tags.drop_last();
        assert forall|i: int| 0 <= i < init.len() implies is_tag(#[trigger] init[i]) by {
            assert(init[i] == tags[i]);
        }
        lemma_tag_list_segments(init);
        let head = text::joined(init, ", "@);
        let tail = " "@ + tags.last();
        assert(list == head + seq![','] + tail);
        text::lemma_split_concat(head, tail, ',');
        text::lemma_split_single(tail, ',');
        assert(text::split(list, ',').map_values(f) == text::split(head, ',').map_values(f).push(
            tags.last(),
        ));
        assert(init.push(tags.last()) == tags);
    }
}

/// A list of two or more tags written with `, ` between them is read back as these tags.
pub proof fn law_tag_list_is_read_back(tags: Seq<Seq<char>>)
    requires
        tags.len() >= 2,
        forall|i: int| 0 <= i < tags.len() ==> is_tag(#[trigger] tags[i]),
    ensures
        line_tags(text::joined(tags, ", "@)) == Some(tags),
{
    reveal_strlit(", ");
    let line = text::joined(tags, ", "@);
    lemma_tag_list_segments(tags);
    assert(is_tag(tags.last()));
    assert(line_segments(line) == tags);
    let head = text::joined(tags.drop_last(), ", "@);
    assert(line[head.len() as int] == ',');
}

/// A list of one or more tags with a comma at its end is read back as these tags.
pub proof fn law_tag_list_with_comma_is_read_back(tags: Seq<Seq<char>>)
    requires
        tags.len() >= 1,
        forall|i: int| 0 <= i < tags.len() ==> is_tag(#[trigger] tags[i]),
    ensures
        line_tags(text::joined(tags, ", "@) + ","@) == Some(tags),
{
    reveal_strlit(",");
    let list = text::joined(tags, ", "@);
    let line = list + ","@;
    let f = |s: Seq<char>| text::trimmed(s);
    lemma_tag_list_segments(tags);
    let nothing = Seq::<char>::empty();
    assert(line == list + seq![','] + nothing);
    text::lemma_split_concat(list, nothing, ',');
    text::lemma_split_single(nothing, ',');
    assert(text::trimmed(nothing) == nothing);
    let segments = text::split(line, ',').map_values(f);
    assert(segments == tags.push(nothing));
    assert(segments.drop_last() == tags);
    assert(line[list.len() as int] == ',');
}

/// A single word without a comma is no tag shorthand, though it is a tag.
pub proof fn law_single_tag_needs_comma(tag: Seq<char>)
    requires
        is_tag(tag),
    ensures
        line_tags(tag) is None,
        line_tags(tag + ","@) == Some(seq![tag]),
{
    lemma_tag(tag);
    let tags = seq![tag];
    assert(text::joined(tags, ", "@) == tag);
    law_tag_list_with_comma_is_read_back(tags);
}

/// A line with a comma that comes down to one segment ends in the comma, but for white space: a tag
/// shorthand of a single tag is written with the comma after the tag.
pub proof fn law_lone_segment_is_followed_by_comma(line: Seq<char>)
    requires
        line.contains(','),
        line_segments(line).len() == 1,
    ensures
        text::trimmed_end(line).len() > 0,
        text::trimmed_end(line).last() == ',',
{
    text::lemma_find(line, ',');
    let i = text::find(line, ',');
    let tail = line.skip(i + 1);
    assert(text::split(tail, ',').len() == 1);
    assert(text::split(line, ',').last() == text::split(tail, ',').last());
    text::lemma_find(tail, ',');
    let j = text::find(tail, ',');
    if j < tail.len() {
        assert(text::split(tail.skip(j + 1), ',').len() > 0);
    }
    assert(text::split(tail, ',') == seq![tail]);
    text::lemma_blank(tail);
    text::lemma_trimmed_end(line);
    let n = text::trimmed_end(line).len();
    if n < i + 1 {
        assert(text::is_white_space(line[i]));
    } else if n > i + 1 {
        assert(line[n - 1] == tail[n - 2 - i]);
    }
}

/// A source whose physical first line is blank is left as it is, whatever its other lines hold.
pub proof fn law_blank_first_line(source: Seq<char>)
    requires
        text::trimmed(first_line(source).0).len() == 0,
    ensures
        rewritten(source) == source,
{
    lemma_blank_line(first_line(source).0);
}

/// Whether `c` is one of `-`, `.`, `0` to `9`, `A` to `Z`, `_` and `a` to `z`, by its code.
pub open spec fn has_tag_code(c: char) -> bool {
    let n = c as u32;
    ||| n == 0x2d || n == 0x2e || n == 0x5f
    ||| 0x30 <= n <= 0x39
    ||| 0x41 <= n <= 0x5a
    ||| 0x61 <= n <= 0x7a
}

/// A tag is made of one or more of the characters `-`, `.`, `0` to `9`, `A` to `Z`, `_` and `a` to
/// `z`, in any order, and of no others.
pub proof fn law_tag_characters(s: Seq<char>)
    ensures
        is_tag(s) <==> s.len() > 0 && forall|i: int|
            0 <= i < s.len() ==> has_tag_code(#[trigger] s[i]),
{
    assert forall|i: int| 0 <= i < s.len() implies is_tag_char(#[trigger] s[i]) == has_tag_code(
        s[i],
    ) by {
        lemma_tag_code(s[i]);
    }
}

proof fn lemma_tag_code(c: char)
    ensures
        is_tag_char(c) == has_tag_code(c),
{
}

/// The first line of a source is what stands before the first line feed, without a carriage return
/// at its end; all that stands after the line feed follows it. A source without a line feed is one
/// line.
pub proof fn law_first_line_ends_at_line_feed(head: Seq<char>, body: Seq<char>)
    requires
        forall|i: int| 0 <= i < head.len() ==> head[i] != '\n',
    ensures
        first_line(head) == (head, None::<Seq<char>>),
        first_line(head + seq!['\n'] + body).1 == Some(body),
        head.len() == 0 || head.last() != '\r' ==> first_line(head + seq!['\n'] + body).0 == head,
        first_line(head + seq!['\r', '\n'] + body) == (head, Some(body)),
{
    let source = head + seq!['\n'] + body;
    let n = head.len() as int;
    text::lemma_find_is(head, '\n', n);
    text::lemma_find_is(source, '\n', n);
    assert(source.take(n) == head);
    assert(source.skip(n + 1) == body);
    let returned = head.push('\r');
    let other = head + seq!['\r', '\n'] + body;
    text::lemma_find_is(other, '\n', n + 1);
    assert(other.take(n + 1) == returned);
    assert(returned.drop_last() == head);
    assert(other.skip(n + 2) == body);
}

/// What follows the first line is kept character for character, whatever it holds: every source
/// with a line break ends, when it is rewritten, with that line break and all that stands after it,
/// and it has no line break before that.
pub proof fn law_rest_of_source_is_kept(source: Seq<char>, i: int)
    requires
        0 <= i < source.len(),
        source[i] == '\n',
        forall|j: int| 0 <= j < i ==> source[j] != '\n',
    ensures
        ({
            let out = rewritten(source);
            let n = out.len() - (source.len() - i);
            &&& 0 <= n
            &&& out.skip(n) == source.skip(i)
            &&& forall|j: int| 0 <= j < n ==> out[j] != '\n'
        }),
{
    let head = source.take(i);
    let body = source.skip(i + 1);
    assert(source == head + seq!['\n'] + body);
    law_first_line_ends_at_line_feed(head, body);
    if let Some(tags) = line_tags(first_line(source).0) {
        lemma_show_line(tags);
        reveal_strlit("\n");
        let shown = show_line(tags);
        let out = rewritten(source);
        assert(out == shown + "\n"@ + body);
        assert(out.skip(shown.len() as int) == source.skip(i));
        assert forall|j: int| 0 <= j < shown.len() implies out[j] != '\n' by {
            assert(out[j] == shown[j]);
        }
    }
}

/// A line of tags between commas, white space around each of them or not and a comma after the
/// last or not, is written out: the tags in order, each as it is where it begins with a digit and
/// otherwise in quotation marks, with a comma and a space between neighbours. A line break, a line
/// feed alone or behind a carriage return, is written as a line feed, and what follows it stays.
pub proof fn law_tag_line_is_written_out(
    line: Seq<char>,
    tags: Seq<Seq<char>>,
    args: Seq<Seq<char>>,
    body: Seq<char>,
)
    requires
        forall|i: int| 0 <= i < line.len() ==> line[i] != '\n',
        text::split(line, ',').len() >= 2,
        tags.len() > 0,
        tags.len() == text::split(line, ',').len() || (tags.len() + 1 == text::split(line, ',').len()
            && text::trimmed(text::split(line, ',').last()).len() == 0),
        forall|k: int|
            0 <= k < tags.len() ==> #[trigger] tags[k] == text::trimmed(text::split(line, ',')[k]),
        forall|k: int| 0 <= k < tags.len() ==> is_tag(#[trigger] tags[k]),
        args.len() == tags.len(),
        forall|k: int|
            0 <= k < tags.len() ==> #[trigger] args[k] == if '0' <= tags[k][0] <= '9' {
                tags[k]
            } else {
                seq!['"'] + tags[k] + seq!['"']
            },
    ensures
        ({
            let shown = "#show: tag.with("@ + text::joined(args, seq![',', ' ']) + seq![')'];
            &&& rewritten(line) == shown
            &&& line.last() != '\r' ==> rewritten(line + seq!['\n'] + body) == shown + seq!['\n']
                + body
            &&& rewritten(line + seq!['\r', '\n'] + body) == shown + seq!['\n'] + body
        }),
{
    reveal_strlit(", ");
    reveal_strlit(")");
    reveal_strlit("\"");
    reveal_strlit("\n");
    let pieces = text::split(line, ',');
    let segments = pieces.map_values(|s: Seq<char>| text::trimmed(s));
    if tags.len() == pieces.len() {
        assert(segments.last() == tags[tags.len() - 1]);
        assert(is_tag(tags[tags.len() - 1]));
        assert(segments == tags);
    } else {
        assert(segments.last() == text::trimmed(pieces.last()));
        assert(segments.drop_last() == tags);
    }
    assert(line_segments(line) == tags);
    assert(line.contains(',')) by {
        text::lemma_find(line, ',');
        let at = text::find(line, ',');
        if at < line.len() {
            assert(line[at] == ',');
        } else {
            text::lemma_split_single(line, ',');
        }
    }
    assert(line_tags(line) == Some(tags));
    assert("\""@ == seq!['"']);
    assert(tags.map_values(|t: Seq<char>| tag_arg(t)) == args);
    assert(", "@ == seq![',', ' ']);
    assert(")"@ == seq![')']);
    assert("\n"@ == seq!['\n']);
    law_first_line_ends_at_line_feed(line, body);
}

/// Nothing but a line of tags between commas is rewritten: where a source is changed, its first line
/// has a comma, each piece of it between the commas is a tag with white space around it or not, the
/// last one perhaps blank.
pub proof fn law_other_first_lines_stay(source: Seq<char>)
    ensures
        ({
            let pieces = text::split(first_line(source).0, ',');
            rewritten(source) != source ==> {
                &&& pieces.len() >= 2
                &&& forall|k: int|
                    0 <= k < pieces.len() - 1 ==> is_tag(text::trimmed(#[trigger] pieces[k]))
                &&& is_tag(text::trimmed(pieces.last())) || text::trimmed(pieces.last()).len() == 0
            }
        }),
{
    let line = first_line(source).0;
    let pieces = text::split(line, ',');
    let segments = pieces.map_values(|s: Seq<char>| text::trimmed(s));
    if rewritten(source) != source {
        assert(is_shorthand(line));
        text::lemma_find(line, ',');
        assert(text::split(line.skip(text::find(line, ',') + 1), ',').len() > 0);
        assert(pieces.len() >= 2);
        assert forall|k: int| 0 <= k < pieces.len() - 1 implies is_tag(
            text::trimmed(#[trigger] pieces[k]),
        ) by {
            assert(line_segments(line)[k] == segments[k]);
        }
        let last = pieces.len() - 1;
        assert(segments.last() == text::trimmed(pieces[last]));
        if segments.last().len() > 0 {
            assert(is_tag(line_segments(line)[last]));
        }
    }
}

} // verus!

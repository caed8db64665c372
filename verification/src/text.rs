//! Text as sequences of characters: white space, trimming, splitting and decimal numbers.

use vstd::prelude::*;

verus! {

/// Whether `c` has the Unicode property `White_Space`.
pub open spec fn is_white_space(c: char) -> bool {
    let n = c as u32;
    ||| 0x9 <= n <= 0xd
    ||| n == 0x20
    ||| n == 0x85
    ||| n == 0xa0
    ||| n == 0x1680
    ||| 0x2000 <= n <= 0x200a
    ||| n == 0x2028
    ||| n == 0x2029
    ||| n == 0x202f
    ||| n == 0x205f
    ||| n == 0x3000
}

/// `s` without the white space at its start.
pub open spec fn trimmed_start(s: Seq<char>) -> Seq<char>
    decreases s.len(),
{
    if s.len() > 0 && is_white_space(s[0]) {
        trimmed_start(s.skip(1))
    } else {
        s
    }
}

/// `s` without the white space at its end.
pub open spec fn trimmed_end(s: Seq<char>) -> Seq<char>
    decreases s.len(),
{
    if s.len() > 0 && is_white_space(s.last()) {
        trimmed_end(s.drop_last())
    } else {
        s
    }
}

/// `s` without the white space at both of its ends.
pub open spec fn trimmed(s: Seq<char>) -> Seq<char> {
    trimmed_end(trimmed_start(s))
}

/// The position of the first `c` in `s`, or the length of `s` where there is none.
pub open spec fn find(s: Seq<char>, c: char) -> int
    decreases s.len(),
{
    if s.len() == 0 || s[0] == c {
        0
    } else {
        1 + find(s.skip(1), c)
    }
}

/// The pieces of `s` between the occurrences of `sep`: one more than there are occurrences.
pub open spec fn split(s: Seq<char>, sep: char) -> Seq<Seq<char>>
    decreases s.len(),
{
    let i = find(s, sep);
    if 0 <= i < s.len() {
        seq![s.take(i)] + split(s.skip(i + 1), sep)
    } else {
        seq![s]
    }
}

/// `pieces` in order, with `sep` between neighbours.
pub open spec fn joined(pieces: Seq<Seq<char>>, sep: Seq<char>) -> Seq<char>
    decreases pieces.len(),
{
    if pieces.len() == 0 {
        Seq::empty()
    } else if pieces.len() == 1 {
        pieces[0]
    } else {
        joined(pieces.drop_last(), sep) + sep + pieces.last()
    }
}

/// The views of a list of strings.
pub open spec fn views(list: Seq<String>) -> Seq<Seq<char>> {
    list.map_values(|s: String| s@)
}

/// Decides [`is_white_space`].
pub fn white_space(c: char) -> (r: bool)
    ensures
        r == is_white_space(c),
{
    let n: u32 = c as u32;
    (0x9 <= n && n <= 0xd) || n == 0x20 || n == 0x85 || n == 0xa0 || n == 0x1680 || (0x2000 <= n
        && n <= 0x200a) || n == 0x2028 || n == 0x2029 || n == 0x202f || n == 0x205f || n == 0x3000
}

/// The characters of `s`, one after the other.
pub fn chars_of(s: &str) -> (r: Vec<char>)
    ensures
        r@ == s@,
{
    let mut r: Vec<char> = Vec::new();
    for c in it: s.chars()
        invariant
            it.seq() == s@,
            r@ == s@.take(it.index()),
    {
        r.push(c);
    }
    r
}

/// Whether `a` and `b` hold the same characters.
pub fn same_text(a: &str, b: &str) -> (r: bool)
    ensures
        r == (a@ == b@),
{
    a.to_owned() == b.to_owned()
}

/// `find` names the first occurrence of `c`, or the end.
pub proof fn lemma_find(s: Seq<char>, c: char)
    ensures
        0 <= find(s, c) <= s.len(),
        find(s, c) < s.len() ==> s[find(s, c)] == c,
        forall|j: int| 0 <= j < find(s, c) ==> s[j] != c,
    decreases s.len(),
{
    if s.len() > 0 && s[0] != c {
        lemma_find(s.skip(1), c);
        assert forall|j: int| 0 <= j < find(s, c) implies s[j] != c by {
            if j > 0 {
                assert(s[j] == s.skip(1)[j - 1]);
            }
        }
    }
}

/// A position before which `c` does not occur, and at which it does or the text ends, is the one
/// that `find` names.
pub proof fn lemma_find_is(s: Seq<char>, c: char, i: int)
    requires
        0 <= i <= s.len(),
        i < s.len() ==> s[i] == c,
        forall|j: int| 0 <= j < i ==> s[j] != c,
    ensures
        find(s, c) == i,
{
    lemma_find(s, c);
}

/// Splitting two texts with a separator between them is splitting each of the two.
pub proof fn lemma_split_concat(a: Seq<char>, b: Seq<char>, sep: char)
    ensures
        split(a + seq![sep] + b, sep) == split(a, sep) + split(b, sep),
    decreases a.len(),
{
    let s = a + seq![sep] + b;
    let i = find(a, sep);
    lemma_find(a, sep);
    lemma_find_is(s, sep, i);
    if i < a.len() {
        lemma_split_concat(a.skip(i + 1), b, sep);
        assert(s.skip(i + 1) == a.skip(i + 1) + seq![sep] + b);
        assert(s.take(i) == a.take(i));
        assert(split(s, sep) == split(a, sep) + split(b, sep));
    } else {
        assert(s.take(i) == a);
        assert(s.skip(i + 1) == b);
    }
}

/// A text in which the separator does not occur is its only piece.
pub proof fn lemma_split_single(s: Seq<char>, sep: char)
    requires
        forall|i: int| 0 <= i < s.len() ==> s[i] != sep,
    ensures
        split(s, sep) == seq![s],
{
    lemma_find(s, sep);
}

/// Whether `part` stands somewhere in `s`.
pub open spec fn contains_text(s: Seq<char>, part: Seq<char>) -> bool {
    exists|before: Seq<char>, after: Seq<char>| s == #[trigger] (before + part + after)
}

/// A text around one that contains `part` contains it too.
pub proof fn lemma_contains_around(
    before: Seq<char>,
    s: Seq<char>,
    after: Seq<char>,
    part: Seq<char>,
)
    requires
        contains_text(s, part),
    ensures
        contains_text(before + s + after, part),
{
    let (a, b) = choose|a: Seq<char>, b: Seq<char>| s == #[trigger] (a + part + b);
    assert(before + s + after == (before + a) + part + (b + after));
}

/// Every piece stands in the joined text.
pub proof fn lemma_joined_contains(pieces: Seq<Seq<char>>, sep: Seq<char>, k: int)
    requires
        0 <= k < pieces.len(),
    ensures
        contains_text(joined(pieces, sep), pieces[k]),
    decreases pieces.len(),
{
    let nothing = Seq::<char>::empty();
    if pieces.len() == 1 {
        assert(joined(pieces, sep) == nothing + pieces[k] + nothing);
    } else {
        let init = pieces.drop_last();
        if k < init.len() {
            lemma_joined_contains(init, sep, k);
            assert(init[k] == pieces[k]);
            lemma_contains_around(nothing, joined(init, sep), sep + pieces.last(), pieces[k]);
            assert(joined(pieces, sep) == nothing + joined(init, sep) + (sep + pieces.last()));
        } else {
            assert(joined(pieces, sep) == (joined(init, sep) + sep) + pieces[k] + nothing);
        }
    }
}

/// A text that trims to nothing is white space throughout.
pub proof fn lemma_blank(s: Seq<char>)
    requires
        trimmed(s).len() == 0,
    ensures
        forall|i: int| 0 <= i < s.len() ==> is_white_space(#[trigger] s[i]),
{
    lemma_trimmed_start(s);
    lemma_trimmed_end(trimmed_start(s));
    let n = s.len() - trimmed_start(s).len();
    assert forall|i: int| 0 <= i < s.len() implies is_white_space(#[trigger] s[i]) by {
        if i >= n {
            assert(s[i] == trimmed_start(s)[i - n]);
        }
    }
}

/// A property of every character of the pieces and of the separator is one of every character of
/// the joined text.
pub proof fn lemma_joined_all(pieces: Seq<Seq<char>>, sep: Seq<char>, p: spec_fn(char) -> bool)
    requires
        forall|i: int, j: int|
            0 <= i < pieces.len() && 0 <= j < pieces[i].len() ==> p(#[trigger] pieces[i][j]),
        forall|j: int| 0 <= j < sep.len() ==> p(#[trigger] sep[j]),
    ensures
        forall|j: int| 0 <= j < joined(pieces, sep).len() ==> p(#[trigger] joined(pieces, sep)[j]),
    decreases pieces.len(),
{
    if pieces.len() > 1 {
        let init = pieces.drop_last();
        assert forall|i: int, j: int|
            0 <= i < init.len() && 0 <= j < init[i].len() implies p(#[trigger] init[i][j]) by {
            assert(init[i][j] == pieces[i][j]);
        }
        lemma_joined_all(init, sep, p);
        let last = pieces.len() - 1;
        assert forall|j: int| 0 <= j < joined(pieces, sep).len() implies p(
            #[trigger] joined(pieces, sep)[j],
        ) by {
            let a = joined(init, sep);
            if j < a.len() {
                assert(joined(pieces, sep)[j] == a[j]);
            } else if j < a.len() + sep.len() {
                assert(joined(pieces, sep)[j] == sep[j - a.len()]);
            } else {
                assert(joined(pieces, sep)[j] == pieces[last][j - a.len() - sep.len()]);
            }
        }
    } else if pieces.len() == 1 {
        assert forall|j: int| 0 <= j < joined(pieces, sep).len() implies p(
            #[trigger] joined(pieces, sep)[j],
        ) by {
            assert(joined(pieces, sep)[j] == pieces[0][j]);
        }
    }
}

/// What `trimmed_start` takes away is white space.
pub proof fn lemma_trimmed_start(s: Seq<char>)
    ensures
        ({
            let n = s.len() - trimmed_start(s).len();
            &&& 0 <= n <= s.len()
            &&& trimmed_start(s) == s.skip(n)
            &&& forall|i: int| 0 <= i < n ==> is_white_space(#[trigger] s[i])
            &&& n < s.len() ==> !is_white_space(s[n])
        }),
    decreases s.len(),
{
    if s.len() > 0 && is_white_space(s[0]) {
        lemma_trimmed_start(s.skip(1));
        let n = s.len() - trimmed_start(s).len();
        assert(s.skip(1).skip(n - 1) == s.skip(n));
        assert forall|i: int| 0 <= i < n implies is_white_space(#[trigger] s[i]) by {
            if i > 0 {
                assert(s[i] == s.skip(1)[i - 1]);
            }
        }
    } else {
        assert(s.skip(0) == s);
    }
}

/// What `trimmed_end` takes away is white space.
pub proof fn lemma_trimmed_end(s: Seq<char>)
    ensures
        ({
            let n = trimmed_end(s).len();
            &&& n <= s.len()
            &&& trimmed_end(s) == s.take(n as int)
            &&& forall|i: int| n <= i < s.len() ==> is_white_space(#[trigger] s[i])
            &&& n > 0 ==> !is_white_space(s[n - 1])
        }),
    decreases s.len(),
{
    if s.len() > 0 && is_white_space(s.last()) {
        lemma_trimmed_end(s.drop_last());
        let n = trimmed_end(s).len();
        assert(s.drop_last().take(n as int) == s.take(n as int));
        assert forall|i: int| n <= i < s.len() implies is_white_space(#[trigger] s[i]) by {
            if i < s.len() - 1 {
                assert(s[i] == s.drop_last()[i]);
            }
        }
    } else {
        assert(s.take(s.len() as int) == s);
    }
}

/// What stands between the first and the last character that is not white space is the trimmed
/// text.
pub proof fn lemma_trimmed_is(s: Seq<char>, from: int, to: int)
    requires
        0 <= from < to <= s.len(),
        forall|i: int| 0 <= i < from ==> is_white_space(#[trigger] s[i]),
        forall|i: int| to <= i < s.len() ==> is_white_space(#[trigger] s[i]),
        !is_white_space(s[from]),
        !is_white_space(s[to - 1]),
    ensures
        trimmed(s) == s.subrange(from, to),
{
    lemma_trimmed_start(s);
    let t = trimmed_start(s);
    assert(t == s.skip(from));
    lemma_trimmed_end(t);
    let n = trimmed_end(t).len();
    assert(t[to - 1 - from] == s[to - 1]);
    if n > to - from {
        assert(t[n - 1] == s[n - 1 + from]);
    }
    assert(trimmed(s) == s.subrange(from, to));
}

/// A text that does not trim to nothing has a first and a last character that is not white space.
pub proof fn lemma_trimmed_bounds(s: Seq<char>) -> (r: (int, int))
    requires
        trimmed(s).len() > 0,
    ensures
        0 <= r.0 < r.1 <= s.len(),
        forall|i: int| 0 <= i < r.0 ==> is_white_space(#[trigger] s[i]),
        forall|i: int| r.1 <= i < s.len() ==> is_white_space(#[trigger] s[i]),
        !is_white_space(s[r.0]),
        !is_white_space(s[r.1 - 1]),
        trimmed(s) == s.subrange(r.0, r.1),
{
    lemma_trimmed_start(s);
    let t = trimmed_start(s);
    lemma_trimmed_end(t);
    let from = s.len() - t.len();
    let to = from + trimmed(s).len();
    assert forall|i: int| to <= i < s.len() implies is_white_space(#[trigger] s[i]) by {
        assert(s[i] == t[i - from]);
    }
    assert(s[to - 1] == t[to - 1 - from]);
    lemma_trimmed_is(s, from, to);
    (from, to)
}

/// The first position of `c` in `s`, or the number of characters of `s`.
pub fn find_char(s: &str, c: char) -> (r: usize)
    ensures
        r == find(s@, c),
        r <= s@.len(),
{
    let chars = chars_of(s);
    let mut i: usize = 0;
    while i < chars.len() && chars[i] != c
        invariant
            chars@ == s@,
            i <= chars.len(),
            forall|j: int| 0 <= j < i ==> s@[j] != c,
        decreases chars.len() - i,
    {
        i = i + 1;
    }
    proof {
        lemma_find_is(s@, c, i as int);
    }
    i
}

/// `s` without the white space at its start.
pub fn trim_start(s: &str) -> (r: &str)
    ensures
        r@ == trimmed_start(s@),
{
    let chars = chars_of(s);
    let mut i: usize = 0;
    proof {
        assert(s@.skip(0) == s@);
    }
    while i < chars.len() && white_space(chars[i])
        invariant
            chars@ == s@,
            i <= chars.len(),
            trimmed_start(s@) == trimmed_start(s@.skip(i as int)),
        decreases chars.len() - i,
    {
        proof {
            assert(s@.skip(i as int).skip(1) == s@.skip(i + 1));
        }
        i = i + 1;
    }
    s.substring_char(i, chars.len())
}

/// `s` without the white space at its end.
pub fn trim_end(s: &str) -> (r: &str)
    ensures
        r@ == trimmed_end(s@),
{
    let chars = chars_of(s);
    let mut i: usize = chars.len();
    proof {
        assert(s@.take(i as int) == s@);
    }
    while i > 0 && white_space(chars[i - 1])
        invariant
            chars@ == s@,
            i <= chars.len(),
            trimmed_end(s@) == trimmed_end(s@.take(i as int)),
        decreases i,
    {
        proof {
            assert(s@.take(i as int).drop_last() == s@.take(i - 1));
        }
        i = i - 1;
    }
    s.substring_char(0, i)
}

/// `s` without the white space at both of its ends.
pub fn trim(s: &str) -> (r: &str)
    ensures
        r@ == trimmed(s@),
{
    trim_end(trim_start(s))
}

/// The pieces of `s` between the occurrences of `sep`.
pub fn split_text(s: &str, sep: char) -> (r: Vec<String>)
    ensures
        views(r@) == split(s@, sep),
{
    let mut pieces: Vec<String> = Vec::new();
    let mut rest: &str = s;
    loop
        invariant
            split(s@, sep) == views(pieces@) + split(rest@, sep),
        decreases rest@.len(),
    {
        let n: usize = rest.unicode_len();
        let i: usize = find_char(rest, sep);
        if i == n {
            pieces.push(rest.to_owned());
            proof {
                assert(views(pieces@) == split(s@, sep));
            }
            return pieces;
        }
        let piece = rest.substring_char(0, i).to_owned();
        let ghost before = views(pieces@);
        pieces.push(piece);
        proof {
            assert(rest@.subrange(0, i as int) == rest@.take(i as int));
            assert(rest@.subrange(i + 1, n as int) == rest@.skip(i + 1));
            assert(views(pieces@) == before.push(rest@.take(i as int)));
            assert(views(pieces@) + split(rest@.skip(i + 1), sep) == before + (seq![
                rest@.take(i as int),
            ] + split(rest@.skip(i + 1), sep)));
        }
        rest = rest.substring_char(i + 1, n);
    }
}

/// `pieces` in order, with `sep` between neighbours.
pub fn join_texts(pieces: &Vec<String>, sep: &str) -> (r: String)
    ensures
        r@ == joined(views(pieces@), sep@),
{
    let mut r = String::new();
    let mut i: usize = 0;
    while i < pieces.len()
        invariant
            i <= pieces.len(),
            r@ == joined(views(pieces@).take(i as int), sep@),
        decreases pieces.len() - i,
    {
        proof {
            let done = views(pieces@).take(i + 1);
            assert(done.drop_last() == views(pieces@).take(i as int));
            assert(done.last() == pieces@[i as int]@);
        }
        if i > 0 {
            r.append(sep);
        }
        r.append(pieces[i].as_str());
        i = i + 1;
    }
    proof {
        assert(views(pieces@).take(i as int) == views(pieces@));
    }
    r
}

/// The decimal digit of a number below ten.
pub open spec fn digit(d: nat) -> char {
    if d == 0 {
        '0'
    } else if d == 1 {
        '1'
    } else if d == 2 {
        '2'
    } else if d == 3 {
        '3'
    } else if d == 4 {
        '4'
    } else if d == 5 {
        '5'
    } else if d == 6 {
        '6'
    } else if d == 7 {
        '7'
    } else if d == 8 {
        '8'
    } else {
        '9'
    }
}

/// The decimal digits of `n`, without leading zeros.
pub open spec fn decimal(n: nat) -> Seq<char>
    decreases n,
{
    if n < 10 {
        seq![digit(n)]
    } else {
        decimal(n / 10).push(digit(n % 10))
    }
}

fn digit_text(d: u64) -> (r: &'static str)
    requires
        d < 10,
    ensures
        r@ == seq![digit(d as nat)],
{
    proof {
        reveal_strlit("0");
        reveal_strlit("1");
        reveal_strlit("2");
        reveal_strlit("3");
        reveal_strlit("4");
        reveal_strlit("5");
        reveal_strlit("6");
        reveal_strlit("7");
        reveal_strlit("8");
        reveal_strlit("9");
    }
    if d == 0 {
        "0"
    } else if d == 1 {
        "1"
    } else if d == 2 {
        "2"
    } else if d == 3 {
        "3"
    } else if d == 4 {
        "4"
    } else if d == 5 {
        "5"
    } else if d == 6 {
        "6"
    } else if d == 7 {
        "7"
    } else if d == 8 {
        "8"
    } else {
        "9"
    }
}

/// The decimal digits of `n`.
pub fn decimal_text(n: u64) -> (r: String)
    ensures
        r@ == decimal(n as nat),
    decreases n,
{
    if n < 10 {
        digit_text(n).to_owned()
    } else {
        let mut r = decimal_text(n / 10);
        r.append(digit_text(n % 10));
        proof {
            assert(r@ == decimal(n as nat));
        }
        r
    }
}

/// `s` without the repetitions of `prefix` at its start.
pub open spec fn without_prefix(s: Seq<char>, prefix: Seq<char>) -> Seq<char>
    decreases s.len(),
{
    if prefix.len() > 0 && prefix.is_prefix_of(s) {
        without_prefix(s.skip(prefix.len() as int), prefix)
    } else {
        s
    }
}

/// The first word of `s`: what stands between the white space at its start and the next.
pub open spec fn first_word(s: Seq<char>) -> Seq<char> {
    let t = trimmed_start(s);
    t.take(word_len(t))
}

/// The number of characters of `s` before its first white space.
pub open spec fn word_len(s: Seq<char>) -> int
    decreases s.len(),
{
    if s.len() == 0 || is_white_space(s[0]) {
        0
    } else {
        1 + word_len(s.skip(1))
    }
}

/// `word_len` is a number of characters of `s`.
pub proof fn lemma_word_len(s: Seq<char>)
    ensures
        0 <= word_len(s) <= s.len(),
    decreases s.len(),
{
    if s.len() > 0 && !is_white_space(s[0]) {
        lemma_word_len(s.skip(1));
    }
}

/// Whether `s` begins with `prefix`.
pub fn starts_with(s: &str, prefix: &str) -> (r: bool)
    ensures
        r == prefix@.is_prefix_of(s@),
{
    let n: usize = prefix.unicode_len();
    if s.unicode_len() < n {
        return false;
    }
    let r = same_text(s.substring_char(0, n), prefix);
    proof {
        if r {
            assert forall|i: int| 0 <= i < prefix@.len() implies prefix@[i] == s@[i] by {
                assert(s@.subrange(0, n as int)[i] == s@[i]);
            }
        } else if prefix@.is_prefix_of(s@) {
            assert(s@.subrange(0, n as int) == prefix@);
        }
    }
    r
}

/// `s` without the repetitions of `prefix` at its start.
pub fn trim_start_matches<'a>(s: &'a str, prefix: &str) -> (r: &'a str)
    ensures
        r@ == without_prefix(s@, prefix@),
{
    let n: usize = prefix.unicode_len();
    let mut rest: &'a str = s;
    if n == 0 {
        return rest;
    }
    while starts_with(rest, prefix)
        invariant
            n == prefix@.len(),
            n > 0,
            without_prefix(s@, prefix@) == without_prefix(rest@, prefix@),
        decreases rest@.len(),
    {
        let m: usize = rest.unicode_len();
        proof {
            assert(rest@.subrange(n as int, m as int) == rest@.skip(n as int));
        }
        rest = rest.substring_char(n, m);
    }
    rest
}

/// The first word of `s`, empty where it has none.
pub fn head_word(s: &str) -> (r: &str)
    ensures
        r@ == first_word(s@),
{
    let t = trim_start(s);
    let chars = chars_of(t);
    let mut i: usize = 0;
    proof {
        assert(t@.skip(0) == t@);
    }
    while i < chars.len() && !white_space(chars[i])
        invariant
            chars@ == t@,
            i <= chars.len(),
            word_len(t@) == i + word_len(t@.skip(i as int)),
        decreases chars.len() - i,
    {
        proof {
            assert(t@.skip(i as int).skip(1) == t@.skip(i + 1));
        }
        i = i + 1;
    }
    t.substring_char(0, i)
}

/// `n` in decimal with zeros in front, so that it has at least `width` characters.
pub open spec fn zero_padded(n: nat, width: nat) -> Seq<char> {
    let digits = decimal(n);
    if digits.len() < width {
        Seq::new((width - digits.len()) as nat, |i: int| '0') + digits
    } else {
        digits
    }
}

/// The decimal digits of `n` with zeros in front, up to `width` characters.
pub fn zero_padded_text(n: u64, width: usize) -> (r: String)
    ensures
        r@ == zero_padded(n as nat, width as nat),
{
    let digits = decimal_text(n);
    let len: usize = digits.as_str().unicode_len();
    let mut r = String::new();
    let mut i: usize = len;
    proof {
        reveal_strlit("0");
    }
    while i < width
        invariant
            "0"@ == seq!['0'],
            len <= i,
            i <= width || i == len,
            r@ == Seq::new((i - len) as nat, |k: int| '0'),
        decreases width - i,
    {
        r.append("0");
        i = i + 1;
        proof {
            assert(r@ == Seq::new((i - len) as nat, |k: int| '0'));
        }
    }
    r.append(digits.as_str());
    proof {
        assert(r@ == zero_padded(n as nat, width as nat));
    }
    r
}

/// A number has at most one digit more than a tenth of it.
pub proof fn lemma_decimal_len(n: nat)
    ensures
        1 <= decimal(n).len() <= n / 10 + 1,
    decreases n,
{
    if n >= 10 {
        lemma_decimal_len(n / 10);
    }
}

/// A smaller number has no more digits.
pub proof fn lemma_decimal_len_monotone(a: nat, b: nat)
    requires
        a <= b,
    ensures
        decimal(a).len() <= decimal(b).len(),
    decreases b,
{
    lemma_decimal_len(b);
    if a >= 10 {
        lemma_decimal_len_monotone(a / 10, b / 10);
    }
}

/// The number below ten that a decimal digit stands for.
pub open spec fn digit_value(c: char) -> nat {
    (c as u32 - '0' as u32) as nat
}

/// The number that a row of decimal digits stands for.
pub open spec fn decimal_value(s: Seq<char>) -> nat
    decreases s.len(),
{
    if s.len() == 0 {
        0
    } else {
        10 * decimal_value(s.drop_last()) + digit_value(s.last())
    }
}

/// A number is read back from its decimal digits, zeros in front or not.
pub proof fn lemma_zero_padded_value(n: nat, width: nat)
    ensures
        decimal_value(zero_padded(n, width)) == n,
    decreases n, width,
{
    let digits = decimal(n);
    let s = zero_padded(n, width);
    if n >= 10 {
        let w = if width > 0 { (width - 1) as nat } else { 0 };
        lemma_zero_padded_value(n / 10, w);
        assert(s.drop_last() == zero_padded(n / 10, w));
        assert(s.last() == digit(n % 10));
    } else {
        let zeros = s.drop_last();
        assert(s.last() == digit(n));
        assert(forall|i: int| 0 <= i < zeros.len() ==> zeros[i] == '0');
        lemma_zeros_value(zeros);
    }
}

proof fn lemma_zeros_value(s: Seq<char>)
    requires
        forall|i: int| 0 <= i < s.len() ==> s[i] == '0',
    ensures
        decimal_value(s) == 0,
    decreases s.len(),
{
    if s.len() > 0 {
        lemma_zeros_value(s.drop_last());
    }
}

/// White space is the tabulator, the line breaks, the space and the other blanks of Unicode, and no
/// other character.
pub proof fn law_white_space_characters(c: char)
    ensures
        is_white_space(c) <==> {
            ||| c == '\t' || c == '\n' || c == '\u{b}' || c == '\u{c}' || c == '\r'
            ||| c == ' ' || c == '\u{85}' || c == '\u{a0}' || c == '\u{1680}'
            ||| c == '\u{2000}' || c == '\u{2001}' || c == '\u{2002}' || c == '\u{2003}'
            ||| c == '\u{2004}' || c == '\u{2005}' || c == '\u{2006}' || c == '\u{2007}'
            ||| c == '\u{2008}' || c == '\u{2009}' || c == '\u{200a}'
            ||| c == '\u{2028}' || c == '\u{2029}' || c == '\u{202f}' || c == '\u{205f}'
            ||| c == '\u{3000}'
        },
{
}

/// Trimming keeps what stands from the first to the last character that is not white space, all of
/// it and nothing else; of white space alone it leaves nothing.
pub proof fn law_trimming_keeps_the_middle(before: Seq<char>, middle: Seq<char>, after: Seq<char>)
    requires
        forall|i: int| 0 <= i < before.len() ==> is_white_space(#[trigger] before[i]),
        forall|i: int| 0 <= i < after.len() ==> is_white_space(#[trigger] after[i]),
        middle.len() > 0 ==> !is_white_space(middle[0]) && !is_white_space(middle.last()),
    ensures
        trimmed(before + middle + after) == middle,
        trimmed_start(before + middle) == middle,
        trimmed_end(middle + after) == middle,
{
    let s = before + middle + after;
    let n = before.len() as int;
    let m = n + middle.len();
    assert forall|i: int| m <= i < s.len() implies is_white_space(#[trigger] s[i]) by {
        assert(s[i] == after[i - m]);
    }
    assert forall|i: int| 0 <= i < n implies is_white_space(#[trigger] s[i]) by {
        assert(s[i] == before[i]);
    }
    if middle.len() > 0 {
        assert(s[m - 1] == middle.last());
        lemma_trimmed_is(s, n, m);
        assert(s.subrange(n, m) == middle);
    } else if trimmed(s).len() > 0 {
        let (from, to) = lemma_trimmed_bounds(s);
        assert(is_white_space(s[from]));
    } else {
        assert(trimmed(s) == middle);
    }
    let head = before + middle;
    lemma_trimmed_start(head);
    let k = head.len() - trimmed_start(head).len();
    if k < n {
        assert(head[k] == before[k]);
    } else if k > n {
        assert(head[n] == middle[0]);
    }
    assert(head.skip(n) == middle);
    let tail = middle + after;
    lemma_trimmed_end(tail);
    let j = trimmed_end(tail).len();
    if j > middle.len() {
        assert(tail[j - 1] == after[j - 1 - middle.len()]);
    } else if j < middle.len() {
        assert(tail[middle.len() - 1] == middle.last());
    }
    assert(tail.take(middle.len() as int) == middle);
}

/// White space around a text does not count when it is trimmed.
pub proof fn law_blank_around_does_not_count(before: Seq<char>, s: Seq<char>, after: Seq<char>)
    requires
        forall|i: int| 0 <= i < before.len() ==> is_white_space(#[trigger] before[i]),
        forall|i: int| 0 <= i < after.len() ==> is_white_space(#[trigger] after[i]),
    ensures
        trimmed(before + s + after) == trimmed(s),
{
    let nothing = Seq::<char>::empty();
    if trimmed(s).len() > 0 {
        let (from, to) = lemma_trimmed_bounds(s);
        let a = before + s.take(from);
        let b = s.skip(to) + after;
        assert(before + s + after == a + s.subrange(from, to) + b);
        assert(s.subrange(from, to).last() == s[to - 1]);
        law_trimming_keeps_the_middle(a, s.subrange(from, to), b);
    } else {
        lemma_blank(s);
        let all = before + s + after;
        assert(all + nothing + nothing == all);
        law_trimming_keeps_the_middle(all, nothing, nothing);
    }
}

/// White space at the end of a text does not count when the text is trimmed.
pub proof fn lemma_trimmed_of_trimmed_end(s: Seq<char>)
    ensures
        trimmed(trimmed_end(s)) == trimmed(s),
{
    lemma_trimmed_end(s);
    let n = trimmed_end(s).len() as int;
    let nothing = Seq::<char>::empty();
    law_blank_around_does_not_count(nothing, s.take(n), s.skip(n));
    assert(nothing + s.take(n) + s.skip(n) == s);
}

/// What is found is the first occurrence: what stands before it does not hold the character.
pub proof fn law_first_occurrence_is_found(before: Seq<char>, c: char, after: Seq<char>)
    requires
        forall|i: int| 0 <= i < before.len() ==> before[i] != c,
    ensures
        find(before + seq![c] + after, c) == before.len(),
        find(before, c) == before.len(),
{
    lemma_find_is(before + seq![c] + after, c, before.len() as int);
    lemma_find_is(before, c, before.len() as int);
}

/// Joining two lists of pieces is joining each and putting the separator between the two; a single
/// piece stays as it is, and no pieces give nothing.
pub proof fn law_joined_in_parts(
    a: Seq<Seq<char>>,
    b: Seq<Seq<char>>,
    sep: Seq<char>,
    piece: Seq<char>,
)
    ensures
        a.len() > 0 && b.len() > 0 ==> joined(a + b, sep) == joined(a, sep) + sep + joined(b, sep),
        joined(seq![piece], sep) == piece,
        joined(Seq::<Seq<char>>::empty(), sep) == Seq::<char>::empty(),
    decreases b.len(),
{
    if a.len() > 0 && b.len() > 0 {
        let init = b.drop_last();
        assert((a + b).drop_last() == a + init);
        if b.len() == 1 {
            assert(a + init == a);
        } else {
            law_joined_in_parts(a, init, sep, piece);
            assert(joined(a + b, sep) == joined(a, sep) + sep + joined(b, sep));
        }
    }
}

/// Splitting is undone by joining with the separator, and no piece holds the separator.
pub proof fn law_split_is_undone_by_joining(s: Seq<char>, sep: char)
    ensures
        split(s, sep).len() > 0,
        joined(split(s, sep), seq![sep]) == s,
        forall|k: int, i: int|
            0 <= k < split(s, sep).len() && 0 <= i < split(s, sep)[k].len() ==> #[trigger] split(
                s,
                sep,
            )[k][i] != sep,
    decreases s.len(),
{
    lemma_find(s, sep);
    let at = find(s, sep);
    let pieces = split(s, sep);
    if at < s.len() {
        let head = s.take(at);
        let rest = s.skip(at + 1);
        let others = split(rest, sep);
        law_split_is_undone_by_joining(rest, sep);
        law_joined_in_parts(seq![head], others, seq![sep], head);
        assert(pieces == seq![head] + others);
        assert(s == head + seq![sep] + rest);
        assert forall|k: int, i: int|
            0 <= k < pieces.len() && 0 <= i < pieces[k].len() implies #[trigger] pieces[k][i]
            != sep by {
            if k > 0 {
                assert(pieces[k] == others[k - 1]);
                assert(others[k - 1][i] != sep);
            } else {
                assert(pieces[0][i] == s[i]);
            }
        }
    } else {
        assert(pieces == seq![s]);
    }
}

/// A number is written in base ten: a number below ten is its digit, and ten times a number and a
/// digit more has that digit at its end.
pub proof fn law_decimal_is_base_ten(n: nat, d: nat, c: char)
    requires
        d < 10,
        c as u32 == 0x30 + d,
    ensures
        decimal(d) == seq![c],
        n > 0 ==> decimal(10 * n + d) == decimal(n).push(c),
{
    assert(digit(d) == c);
    if n > 0 {
        assert((10 * n + d) / 10 == n);
        assert((10 * n + d) % 10 == d);
    }
}

/// Padding with zeros changes nothing where the number is wide enough, and otherwise puts zeros
/// alone in front of it, up to the width.
pub proof fn law_padding_is_zeros_in_front(n: nat, width: nat)
    ensures
        decimal(n).len() >= width ==> zero_padded(n, width) == decimal(n),
        decimal(n).len() <= width ==> zero_padded(n, width).len() == width && zero_padded(
            n,
            width,
        ).skip(width - decimal(n).len()) == decimal(n),
        forall|i: int| 0 <= i < width - decimal(n).len() ==> zero_padded(n, width)[i] == '0',
{
    if decimal(n).len() <= width {
        assert(zero_padded(n, width).skip(width - decimal(n).len()) == decimal(n));
    }
}

/// A prefix is taken away once more where it stands in front once more; a text that does not begin
/// with it stays as it is.
pub proof fn law_every_repetition_is_taken_away(s: Seq<char>, prefix: Seq<char>)
    requires
        prefix.len() > 0,
    ensures
        without_prefix(prefix + s, prefix) == without_prefix(s, prefix),
        !prefix.is_prefix_of(s) ==> without_prefix(s, prefix) == s,
        !prefix.is_prefix_of(without_prefix(s, prefix)),
    decreases s.len(),
{
    assert((prefix + s).skip(prefix.len() as int) == s);
    assert(prefix.is_prefix_of(prefix + s));
    if prefix.is_prefix_of(s) {
        law_every_repetition_is_taken_away(s.skip(prefix.len() as int), prefix);
    }
}

proof fn lemma_word_len_is(word: Seq<char>, rest: Seq<char>)
    requires
        forall|i: int| 0 <= i < word.len() ==> !is_white_space(#[trigger] word[i]),
        rest.len() > 0 ==> is_white_space(rest[0]),
    ensures
        word_len(word + rest) == word.len(),
    decreases word.len(),
{
    let s = word + rest;
    if word.len() > 0 {
        let w = word.skip(1);
        assert forall|i: int| 0 <= i < w.len() implies !is_white_space(#[trigger] w[i]) by {
            assert(w[i] == word[i + 1]);
        }
        lemma_word_len_is(w, rest);
        assert(s.skip(1) == w + rest);
        assert(s[0] == word[0]);
    } else {
        assert(s == rest);
    }
}

/// The first word is what stands before the next white space, white space at the start apart: all
/// of it, and nothing after it.
pub proof fn law_first_word_ends_at_white_space(
    before: Seq<char>,
    word: Seq<char>,
    rest: Seq<char>,
)
    requires
        forall|i: int| 0 <= i < before.len() ==> is_white_space(#[trigger] before[i]),
        forall|i: int| 0 <= i < word.len() ==> !is_white_space(#[trigger] word[i]),
        rest.len() > 0 ==> is_white_space(rest[0]),
        word.len() == 0 ==> rest.len() == 0,
    ensures
        first_word(before + word + rest) == word,
{
    let s = before + word + rest;
    let t = word + rest;
    let n = before.len() as int;
    lemma_trimmed_start(s);
    let k = s.len() - trimmed_start(s).len();
    if k < n {
        assert(s[k] == before[k]);
    } else if k > n {
        assert(s[n] == word[0]);
    }
    assert(s.skip(n) == t);
    lemma_word_len_is(word, rest);
    assert(t.take(word.len() as int) == word);
}

/// A text that contains another has it at some place, character for character.
pub proof fn law_contained_text_has_a_place(s: Seq<char>, part: Seq<char>)
    requires
        contains_text(s, part),
    ensures
        exists|at: int|
            0 <= at <= s.len() - part.len() && #[trigger] s.subrange(at, at + part.len()) == part,
{
    let (a, b) = choose|a: Seq<char>, b: Seq<char>| s == #[trigger] (a + part + b);
    let at = a.len() as int;
    assert(s.subrange(at, at + part.len()) == part);
}

/// The views of a list are those of its strings, in order.
pub proof fn law_views_are_in_order(list: Seq<String>)
    ensures
        views(list).len() == list.len(),
        forall|k: int| 0 <= k < list.len() ==> #[trigger] views(list)[k] == list[k]@,
{
}

} // verus!

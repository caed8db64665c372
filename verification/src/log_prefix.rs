//! The log columns: the slot prefix of a forwarded worker line, and the indent of the parent's
//! own lines.

use vstd::prelude::*;
use owo_colors::{OwoColorize, Style};
use crate::text;

verus! {

/// The number of digits of the largest slot index of a pool, at least one.
pub open spec fn slot_digits(pool_size: nat) -> nat {
    text::decimal(if pool_size > 2 { (pool_size - 1) as nat } else { 1 }).len()
}

/// The width of the log column that holds the slot prefix: the digits and a space.
pub open spec fn prefix_width(pool_size: nat) -> nat {
    slot_digits(pool_size) + 1
}

/// A slot index, with zeros in front so that all slots of the pool have the same width.
pub open spec fn slot_number(slot_idx: nat, pool_size: nat) -> Seq<char> {
    text::zero_padded(slot_idx, slot_digits(pool_size))
}

/// The terminal sequences that show `s` bold and cyan.
pub open spec fn bold_cyan_text(s: Seq<char>) -> Seq<char> {
    "\u{1b}[36;1m"@ + s + "\u{1b}[0m"@
}

/// The prefix of the lines of a slot: its number, bold and cyan where colour is wanted, and a
/// space.
pub open spec fn slot_prefix(slot_idx: nat, pool_size: nat, color: bool) -> Seq<char> {
    let number = slot_number(slot_idx, pool_size);
    (if color {
        bold_cyan_text(number)
    } else {
        number
    }) + " "@
}

/// The digits that the slot indices of a pool take.
pub fn slot_id_digits(pool_size: usize) -> (r: usize)
    ensures
        r == slot_digits(pool_size as nat),
        1 <= r < usize::MAX,
{
    let last: usize = if pool_size > 2 {
        pool_size - 1
    } else {
        1
    };
    proof {
        text::lemma_decimal_len(last as nat);
    }
    text::decimal_text(last as u64).as_str().unicode_len()
}

/// The visible width of the slot prefix of a forwarded line; the parent's own lines are padded to
/// it.
pub fn log_prefix_width(pool_size: usize) -> (r: usize)
    ensures
        r == prefix_width(pool_size as nat),
{
    slot_id_digits(pool_size) + 1
}

/// `owo_colors`' `style` with `Style::new().bold().cyan()`, displayed: the text stands between the
/// escape sequence that turns on cyan (36) and bold (1) and the one that resets (0).
#[verifier::external_body]
fn bold_cyan(s: &str) -> (r: String)
    ensures
        r@ == bold_cyan_text(s@),
{
    format!("{}", s.style(Style::new().bold().cyan()))
}

/// The bytes written in front of each line of the worker in slot `slot_idx`. Whether the terminal
/// shows colours is for the caller to say.
pub fn slot_prefix_bytes(slot_idx: usize, pool_size: usize, color: bool) -> (r: Vec<u8>)
    ensures
        r@ == vstd::utf8::encode_utf8(slot_prefix(slot_idx as nat, pool_size as nat, color)),
{
    let width: usize = slot_id_digits(pool_size);
    let number = text::zero_padded_text(slot_idx as u64, width);
    let shown = if color {
        bold_cyan(number.as_str())
    } else {
        number
    };
    shown.concat(" ").as_str().as_bytes_vec()
}

/// What is written for one chunk of a worker's stderr: the prefix, the chunk, and a line break
/// where none stands at the end.
pub open spec fn forwarded(prefix: Seq<u8>, chunk: Seq<u8>) -> Seq<u8> {
    let line = prefix + chunk;
    if line.len() > 0 && line.last() == 0x0au8 {
        line
    } else {
        line.push(0x0au8)
    }
}

/// `head` followed by `tail`.
fn append_bytes(head: &mut Vec<u8>, tail: &[u8])
    ensures
        final(head)@ == old(head)@ + tail@,
{
    let mut i: usize = 0;
    while i < tail.len()
        invariant
            i <= tail.len(),
            head@ == old(head)@ + tail@.take(i as int),
        decreases tail.len() - i,
    {
        head.push(tail[i]);
        i = i + 1;
        proof {
            assert(tail@.take(i as int) == tail@.take(i - 1).push(tail@[i - 1]));
        }
    }
    proof {
        assert(tail@.take(i as int) == tail@);
    }
}

/// The bytes to write for one chunk that was read from a worker's stderr, up to a line break or
/// to the end.
pub fn forward_line(prefix: &[u8], chunk: &[u8]) -> (r: Vec<u8>)
    ensures
        r@ == forwarded(prefix@, chunk@),
{
    let mut line: Vec<u8> = Vec::new();
    append_bytes(&mut line, prefix);
    append_bytes(&mut line, chunk);
    proof {
        assert(line@ == prefix@ + chunk@);
    }
    let n: usize = line.len();
    if n == 0 || line[n - 1] != 0x0a {
        line.push(0x0a);
    }
    line
}

/// What a writer that pads every line writes for `buf`, and whether it then stands at the start
/// of a line, given whether it stood there before.
pub open spec fn padded(pad: Seq<u8>, at_line_start: bool, buf: Seq<u8>) -> (Seq<u8>, bool)
    decreases buf.len(),
{
    if buf.len() == 0 {
        (Seq::empty(), at_line_start)
    } else {
        let (out, at_start) = padded(pad, at_line_start, buf.drop_last());
        let indent = if at_start {
            pad
        } else {
            Seq::empty()
        };
        ((out + indent).push(buf.last()), buf.last() == 0x0au8)
    }
}

/// A writer to stderr that puts a fixed indent in front of every line.
pub struct PaddedStderr {
    pub pad: String,
    pub at_line_start: bool,
}

impl PaddedStderr {
    /// A writer that stands at the start of a line.
    pub fn new(pad: String) -> (r: Self)
        ensures
            r.pad == pad,
            r.at_line_start,
    {
        PaddedStderr { pad, at_line_start: true }
    }

    /// The bytes to write to stderr for `buf`.
    pub fn write(&mut self, buf: &[u8]) -> (r: Vec<u8>)
        ensures
            final(self).pad == old(self).pad,
            (r@, final(self).at_line_start) == padded(
                vstd::utf8::encode_utf8(old(self).pad@),
                old(self).at_line_start,
                buf@,
            ),
    {
        let ghost pad_bytes = vstd::utf8::encode_utf8(self.pad@);
        let pad: Vec<u8> = self.pad.as_str().as_bytes_vec();
        let mut out: Vec<u8> = Vec::new();
        let mut i: usize = 0;
        while i < buf.len()
            invariant
                i <= buf.len(),
                self.pad == old(self).pad,
                pad@ == pad_bytes,
                (out@, self.at_line_start) == padded(
                    pad_bytes,
                    old(self).at_line_start,
                    buf@.take(i as int),
                ),
            decreases buf.len() - i,
        {
            let b: u8 = buf[i];
            let ghost before = out@;
            if self.at_line_start {
                append_bytes(&mut out, pad.as_slice());
            }
            out.push(b);
            self.at_line_start = b == 0x0a;
            i = i + 1;
            proof {
                let done = buf@.take(i as int);
                assert(done.drop_last() == buf@.take(i - 1));
                assert(done.last() == b);
                assert(before + Seq::<u8>::empty() == before);
            }
        }
        proof {
            assert(buf@.take(i as int) == buf@);
        }
        out
    }
}

/// The indent that brings the parent's own lines into the column of the forwarded ones.
pub fn parent_indent(pool_size: usize) -> (r: String)
    ensures
        r@ == Seq::new(prefix_width(pool_size as nat), |i: int| ' '),
{
    let width: usize = log_prefix_width(pool_size);
    let mut r = String::new();
    let mut i: usize = 0;
    proof {
        reveal_strlit(" ");
    }
    while i < width
        invariant
            " "@ == seq![' '],
            i <= width,
            r@ == Seq::new(i as nat, |k: int| ' '),
        decreases width - i,
    {
        r.append(" ");
        i = i + 1;
        proof {
            assert(r@ == Seq::new(i as nat, |k: int| ' '));
        }
    }
    r
}

/// Every slot of a pool has a visible prefix of exactly the width of the column: its number and a
/// space.
pub proof fn law_prefixes_fill_the_column(slot_idx: nat, pool_size: nat)
    requires
        slot_idx < pool_size,
    ensures
        slot_number(slot_idx, pool_size).len() + 1 == prefix_width(pool_size),
        slot_prefix(slot_idx, pool_size, false).len() == prefix_width(pool_size),
{
    reveal_strlit(" ");
    text::lemma_decimal_len_monotone(
        slot_idx,
        if pool_size > 2 {
            (pool_size - 1) as nat
        } else {
            1
        },
    );
}

/// Two slots of a pool have different numbers, so their lines can be told apart.
pub proof fn law_prefixes_are_distinct(a: nat, b: nat, pool_size: nat)
    requires
        a != b,
    ensures
        slot_number(a, pool_size) != slot_number(b, pool_size),
        slot_prefix(a, pool_size, false) != slot_prefix(b, pool_size, false),
{
    let width = slot_digits(pool_size);
    text::lemma_zero_padded_value(a, width);
    text::lemma_zero_padded_value(b, width);
    reveal_strlit(" ");
    assert(slot_prefix(a, pool_size, false).drop_last() == slot_number(a, pool_size));
    assert(slot_prefix(b, pool_size, false).drop_last() == slot_number(b, pool_size));
}

/// How the output is cut into writes does not matter: two writes give what one write of both
/// gives.
pub proof fn law_padding_in_pieces(pad: Seq<u8>, at_line_start: bool, a: Seq<u8>, b: Seq<u8>)
    ensures
        ({
            let (first, mid) = padded(pad, at_line_start, a);
            let (second, end) = padded(pad, mid, b);
            padded(pad, at_line_start, a + b) == (first + second, end)
        }),
    decreases b.len(),
{
    let (first, mid) = padded(pad, at_line_start, a);
    if b.len() == 0 {
        assert(a + b == a);
        assert(first + Seq::<u8>::empty() == first);
    } else {
        law_padding_in_pieces(pad, at_line_start, a, b.drop_last());
        assert((a + b).drop_last() == a + b.drop_last());
        let (out, at_start) = padded(pad, mid, b.drop_last());
        let indent = if at_start {
            pad
        } else {
            Seq::empty()
        };
        assert((first + out + indent).push(b.last()) == first + (out + indent).push(b.last()));
    }
}

/// Without an indent the writer passes its input on unchanged.
pub proof fn law_empty_pad_is_transparent(at_line_start: bool, buf: Seq<u8>)
    ensures
        padded(Seq::empty(), at_line_start, buf).0 == buf,
    decreases buf.len(),
{
    if buf.len() > 0 {
        law_empty_pad_is_transparent(at_line_start, buf.drop_last());
        assert(buf.drop_last().push(buf.last()) == buf);
        assert(buf.drop_last() + Seq::<u8>::empty() == buf.drop_last());
    }
}

/// A line that is written whole comes out with the indent in front of it and nothing else added,
/// and the next line will be indented too.
pub proof fn law_line_is_indented(pad: Seq<u8>, line: Seq<u8>)
    requires
        forall|i: int| 0 <= i < line.len() ==> line[i] != 0x0au8,
    ensures
        padded(pad, true, line.push(0x0au8)) == (pad + line.push(0x0au8), true),
{
    let whole = line.push(0x0au8);
    assert(whole.drop_last() == line);
    if line.len() > 0 {
        lemma_open_line(pad, line);
        assert((pad + line).push(0x0au8) == pad + whole);
        assert(pad + line + Seq::<u8>::empty() == pad + line);
    } else {
        assert(padded(pad, true, line) == (Seq::<u8>::empty(), true));
        assert((Seq::<u8>::empty() + pad).push(0x0au8) == pad + whole);
    }
}

proof fn lemma_open_line(pad: Seq<u8>, line: Seq<u8>)
    requires
        line.len() > 0,
        forall|i: int| 0 <= i < line.len() ==> line[i] != 0x0au8,
    ensures
        padded(pad, true, line) == (pad + line, false),
    decreases line.len(),
{
    let init = line.drop_last();
    assert(init.push(line.last()) == line);
    if init.len() > 0 {
        lemma_open_line(pad, init);
        assert((pad + init + Seq::<u8>::empty()).push(line.last()) == pad + line);
    } else {
        assert(padded(pad, true, init) == (Seq::<u8>::empty(), true));
        assert((Seq::<u8>::empty() + pad).push(line.last()) == pad + line);
    }
    assert(line[line.len() - 1] != 0x0au8);
}

/// A forwarded chunk always ends its line.
pub proof fn law_forwarded_line_is_ended(prefix: Seq<u8>, chunk: Seq<u8>)
    ensures
        forwarded(prefix, chunk).last() == 0x0au8,
        (prefix + chunk).is_prefix_of(forwarded(prefix, chunk)),
{
}

/// `pieces`, one after the other.
pub open spec fn concatenated(pieces: Seq<Seq<u8>>) -> Seq<u8>
    decreases pieces.len(),
{
    if pieces.len() == 0 {
        Seq::empty()
    } else {
        concatenated(pieces.drop_last()) + pieces.last()
    }
}

/// Whether a stream was read in `chunks`, each up to a line break or to the end: none is empty, and
/// all but the last end in a line break.
pub open spec fn is_cut(chunks: Seq<Seq<u8>>) -> bool {
    &&& forall|k: int| 0 <= k < chunks.len() ==> (#[trigger] chunks[k]).len() > 0
    &&& forall|k: int| 0 <= k < chunks.len() - 1 ==> (#[trigger] chunks[k]).last() == 0x0au8
}

/// Whether no chunk has a line break before its end.
pub open spec fn is_line_by_line(chunks: Seq<Seq<u8>>) -> bool {
    forall|k: int, i: int|
        0 <= k < chunks.len() && 0 <= i < chunks[k].len() - 1 ==> #[trigger] chunks[k][i] != 0x0au8
}

/// The line break that the end of a stream lacks: one where there is a last chunk without it.
pub open spec fn missing_break(chunks: Seq<Seq<u8>>) -> Seq<u8> {
    if chunks.len() > 0 && chunks.last().last() != 0x0au8 {
        seq![0x0au8]
    } else {
        Seq::empty()
    }
}

/// What is written for all of a worker's stderr.
pub open spec fn forwarded_stream(prefix: Seq<u8>, chunks: Seq<Seq<u8>>) -> Seq<u8> {
    concatenated(chunks.map_values(|chunk: Seq<u8>| forwarded(prefix, chunk)))
}

/// All but the last chunk of a stream end in a line break, and are a stream themselves.
proof fn lemma_cut_init(chunks: Seq<Seq<u8>>)
    requires
        is_cut(chunks),
        chunks.len() > 0,
    ensures
        is_cut(chunks.drop_last()),
        missing_break(chunks.drop_last()) == Seq::<u8>::empty(),
        is_line_by_line(chunks) ==> is_line_by_line(chunks.drop_last()),
{
    let init = chunks.drop_last();
    assert forall|k: int| 0 <= k < init.len() implies (#[trigger] init[k]).len() > 0
        && init[k].last() == 0x0au8 by {
        assert(init[k] == chunks[k]);
    }
    if is_line_by_line(chunks) {
        assert forall|k: int, i: int|
            0 <= k < init.len() && 0 <= i < init[k].len() - 1 implies #[trigger] init[k][i]
            != 0x0au8 by {
            assert(init[k][i] == chunks[k][i]);
        }
    }
}

/// A worker's stderr is forwarded byte for byte, with the prefix in front of each chunk; one line
/// break is added exactly where the stream ends without it. Where nothing was read nothing is
/// written.
pub proof fn law_stream_is_forwarded_whole(prefix: Seq<u8>, chunks: Seq<Seq<u8>>)
    requires
        is_cut(chunks),
    ensures
        forwarded_stream(prefix, chunks) == concatenated(
            chunks.map_values(|chunk: Seq<u8>| prefix + chunk),
        ) + missing_break(chunks),
        chunks.len() == 0 ==> forwarded_stream(prefix, chunks) == Seq::<u8>::empty(),
    decreases chunks.len(),
{
    let written = chunks.map_values(|chunk: Seq<u8>| forwarded(prefix, chunk));
    let prefixed = chunks.map_values(|chunk: Seq<u8>| prefix + chunk);
    if chunks.len() > 0 {
        let init = chunks.drop_last();
        let last = chunks[chunks.len() - 1];
        lemma_cut_init(chunks);
        law_stream_is_forwarded_whole(prefix, init);
        assert(written.drop_last() == init.map_values(
            |chunk: Seq<u8>| forwarded(prefix, chunk),
        ));
        assert(prefixed.drop_last() == init.map_values(|chunk: Seq<u8>| prefix + chunk));
        assert(last.len() > 0);
        assert((prefix + last).last() == last.last());
        assert(forwarded(prefix, last) == prefix + last + missing_break(chunks));
        assert(concatenated(written.drop_last()) == concatenated(prefixed.drop_last()));
    }
}

/// A worker's stderr, read line by line, comes out as the stream itself with the prefix in front of
/// every line, as a writer that pads with the prefix would write it, and with its last line ended.
pub proof fn law_every_line_is_prefixed(prefix: Seq<u8>, chunks: Seq<Seq<u8>>)
    requires
        is_cut(chunks),
        is_line_by_line(chunks),
    ensures
        forwarded_stream(prefix, chunks) == padded(prefix, true, concatenated(chunks)).0
            + missing_break(chunks),
        padded(prefix, true, concatenated(chunks)).1 == (missing_break(chunks).len() == 0),
    decreases chunks.len(),
{
    let written = chunks.map_values(|chunk: Seq<u8>| forwarded(prefix, chunk));
    if chunks.len() > 0 {
        let init = chunks.drop_last();
        let last = chunks[chunks.len() - 1];
        lemma_cut_init(chunks);
        law_every_line_is_prefixed(prefix, init);
        law_padding_in_pieces(prefix, true, concatenated(init), last);
        assert(written.drop_last() == init.map_values(
            |chunk: Seq<u8>| forwarded(prefix, chunk),
        ));
        assert(last.len() > 0);
        assert((prefix + last).last() == last.last());
        assert(forwarded(prefix, last) == prefix + last + missing_break(chunks));
        let body = last.drop_last();
        assert forall|i: int| 0 <= i < body.len() implies body[i] != 0x0au8 by {
            assert(body[i] == chunks[chunks.len() - 1][i]);
        }
        if last.last() == 0x0au8 {
            law_line_is_indented(prefix, body);
            assert(body.push(0x0au8) == last);
        } else {
            assert forall|i: int| 0 <= i < last.len() implies last[i] != 0x0au8 by {
                if i < body.len() {
                    assert(body[i] != 0x0au8);
                }
            }
            lemma_open_line(prefix, last);
        }
        assert(padded(prefix, true, last) == (prefix + last, last.last() == 0x0au8));
        assert(forwarded_stream(prefix, init) == padded(prefix, true, concatenated(init)).0);
    }
}

/// The number of a slot is read back from its prefix, has at least one digit, and has no zero in
/// front where the slot is the last of its pool: the column is no wider than it has to be.
pub proof fn law_column_is_no_wider_than_needed(slot_idx: nat, pool_size: nat)
    ensures
        text::decimal_value(slot_number(slot_idx, pool_size)) == slot_idx,
        pool_size > 1 ==> slot_number((pool_size - 1) as nat, pool_size) == text::decimal(
            (pool_size - 1) as nat,
        ),
        pool_size > 1 ==> prefix_width(pool_size) == text::decimal((pool_size - 1) as nat).len()
            + 1,
        pool_size <= 1 ==> prefix_width(pool_size) == 2,
{
    text::lemma_zero_padded_value(slot_idx, slot_digits(pool_size));
    if pool_size <= 1 {
        text::law_decimal_is_base_ten(0, 1, '1');
    }
}

/// A prefix is the number of the slot and a space; in colour, the number alone stands between the
/// sequence for bold and cyan and the one that ends it.
pub proof fn law_prefix_is_number_and_space(slot_idx: nat, pool_size: nat)
    ensures
        slot_prefix(slot_idx, pool_size, false) == slot_number(slot_idx, pool_size).push(' '),
        slot_prefix(slot_idx, pool_size, true) == "\u{1b}[36;1m"@ + slot_number(
            slot_idx,
            pool_size,
        ) + "\u{1b}[0m"@ + seq![' '],
{
    reveal_strlit(" ");
    assert(" "@ == seq![' ']);
}

/// A line is forwarded as it is, with the prefix in front; a line without its end is ended.
pub proof fn law_line_is_forwarded_as_it_is(prefix: Seq<u8>, line: Seq<u8>)
    requires
        line.len() > 0,
    ensures
        line.last() == 0x0au8 ==> forwarded(prefix, line) == prefix + line,
        line.last() != 0x0au8 ==> forwarded(prefix, line) == prefix + line + seq![0x0au8],
{
    assert((prefix + line).last() == line.last());
    assert((prefix + line).push(0x0au8) == prefix + line + seq![0x0au8]);
}

/// A single byte is written as it is, behind the pad exactly where it begins a line, and the next
/// line begins exactly behind a line feed. Nothing is written for nothing.
pub proof fn law_byte_is_written_as_it_is(pad: Seq<u8>, at_line_start: bool, b: u8)
    ensures
        padded(pad, true, seq![b]) == (pad.push(b), b == 0x0au8),
        padded(pad, false, seq![b]) == (seq![b], b == 0x0au8),
        padded(pad, at_line_start, Seq::empty()) == (Seq::<u8>::empty(), at_line_start),
{
    let nothing = Seq::<u8>::empty();
    assert(seq![b].drop_last() == nothing);
    assert(padded(pad, true, nothing) == (nothing, true));
    assert(padded(pad, false, nothing) == (nothing, false));
    assert((nothing + pad).push(b) == pad.push(b));
    assert((nothing + nothing).push(b) == seq![b]);
}

} // verus!

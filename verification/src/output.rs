//! What commands write, taken in as it comes: line by line, or whole, and in
//! bounded memory either way.

use crate::text;
use vstd::prelude::*;

verus! {

/// The most of one line that is held, in bytes. What has no newline, a progress
/// bar that only ever redraws itself or a dump of binary data, would otherwise
/// be held whole until the command ends.
pub const MAX_LINE_BYTES: usize = 65_536;

/// The most that is kept of the output of a git command that only reads, in
/// bytes. The rest is read and dropped, so that the command is not left blocked
/// on a full pipe.
pub const MAX_READ_OUTPUT: usize = 8_388_608;

/// The byte that ends a line.
pub const NEWLINE: u8 = 10;

/// Where the first newline stands, or the length where none is.
pub open spec fn newline_at(bytes: Seq<u8>) -> nat
    decreases bytes.len(),
{
    if bytes.len() == 0 || bytes[0] == NEWLINE {
        0
    } else {
        1 + newline_at(bytes.skip(1))
    }
}

/// How many of the bytes that are there belong to a line of which `held` bytes
/// are held already: up to and including the newline, or as many as there is
/// room for.
pub open spec fn taken(available: Seq<u8>, held: nat) -> nat {
    let room = (MAX_LINE_BYTES - held) as nat;
    let newline = newline_at(available);
    if newline < available.len() && newline < room {
        newline + 1
    } else if available.len() < room {
        available.len()
    } else {
        room
    }
}

/// Whether the line ends with the bytes that are taken: at a newline, at the
/// bound, or at the end of the output, where nothing is there any more.
pub open spec fn is_line_end(available: Seq<u8>, held: nat) -> bool {
    ||| available.len() == 0
    ||| newline_at(available) < available.len() && newline_at(available) < MAX_LINE_BYTES - held
    ||| held + taken(available, held) == MAX_LINE_BYTES
}

proof fn lemma_newline_at(bytes: Seq<u8>, n: nat)
    requires
        n <= bytes.len(),
        forall|i: int| 0 <= i < n ==> bytes[i] != NEWLINE,
        n < bytes.len() ==> bytes[n as int] == NEWLINE,
    ensures
        newline_at(bytes) == n,
    decreases n,
{
    if n > 0 {
        lemma_newline_at(bytes.skip(1), (n - 1) as nat);
    }
}

/// What `newline_at` finds: a newline, and none before it.
pub proof fn newline_is_first(bytes: Seq<u8>)
    ensures
        newline_at(bytes) <= bytes.len(),
        forall|i: int| 0 <= i < newline_at(bytes) ==> bytes[i] != NEWLINE,
        newline_at(bytes) < bytes.len() ==> bytes[newline_at(bytes) as int] == NEWLINE,
    decreases bytes.len(),
{
    if bytes.len() > 0 && bytes[0] != NEWLINE {
        let rest = bytes.skip(1);
        newline_is_first(rest);
        assert forall|i: int| 0 <= i < newline_at(bytes) implies bytes[i] != NEWLINE by {
            if i > 0 {
                assert(rest[i - 1] == bytes[i]);
            }
        }
    }
}

/// Takes into `buffer` what belongs to the current line of the bytes that are
/// there, none of them at the end of the output. Returns how many were taken and
/// whether the line is complete; the rest of a line that is longer than the
/// bound comes as further lines.
pub fn read_line_bounded(available: &[u8], buffer: &mut Vec<u8>) -> (r: (usize, bool))
    requires
        old(buffer)@.len() <= MAX_LINE_BYTES,
    ensures
        r.0 == taken(available@, old(buffer)@.len()),
        r.1 == is_line_end(available@, old(buffer)@.len()),
        r.0 <= available@.len(),
        final(buffer)@ == old(buffer)@ + available@.take(r.0 as int),
        final(buffer)@.len() <= MAX_LINE_BYTES,
{
    let count: usize = available.len();
    let room: usize = MAX_LINE_BYTES - buffer.len();
    let mut newline: usize = 0;
    while newline < count && available[newline] != NEWLINE
        invariant
            count == available@.len(),
            newline <= count,
            forall|i: int| 0 <= i < newline ==> available@[i] != NEWLINE,
        decreases count - newline,
    {
        newline = newline + 1;
    }
    proof {
        lemma_newline_at(available@, newline as nat);
    }
    let ends = newline < count && newline < room;
    let size: usize = if ends {
        newline + 1
    } else if count < room {
        count
    } else {
        room
    };
    for i in 0..size
        invariant
            size <= available@.len(),
            buffer@ == old(buffer)@ + available@.take(i as int),
    {
        buffer.push(available[i]);
        assert(available@.take(i + 1) == available@.take(i as int).push(available@[i as int]));
    }
    (size, count == 0 || ends || size == room)
}

/// The lines that an output is taken in as.
pub open spec fn pieces(output: Seq<u8>) -> Seq<Seq<u8>>
    decreases output.len(),
{
    if output.len() == 0 {
        Seq::empty()
    } else {
        let size = taken(output, 0) as int;
        seq![output.take(size)] + pieces(output.skip(size))
    }
}

/// The parts one after another.
pub open spec fn together(parts: Seq<Seq<u8>>) -> Seq<u8>
    decreases parts.len(),
{
    if parts.len() == 0 {
        Seq::empty()
    } else {
        parts[0] + together(parts.skip(1))
    }
}

/// It does not matter in what portions an output arrives. A line that ends
/// within the first portion is the one that ends there in the whole, and
/// one that does not takes the first portion whole and goes on with the rest.
pub proof fn portions_do_not_matter(first: Seq<u8>, rest: Seq<u8>, held: nat)
    requires
        first.len() > 0,
        held < MAX_LINE_BYTES,
    ensures
        is_line_end(first, held) ==> {
            &&& taken(first + rest, held) == taken(first, held)
            &&& is_line_end(first + rest, held)
        },
        !is_line_end(first, held) ==> {
            &&& taken(first, held) == first.len()
            &&& held + first.len() < MAX_LINE_BYTES
            &&& taken(first + rest, held) == first.len() + taken(rest, held + first.len())
            &&& rest.len() > 0 ==> is_line_end(first + rest, held) == is_line_end(
                rest,
                held + first.len(),
            )
        },
{
    newline_is_first(first);
    newline_is_first(rest);
    let whole = first + rest;
    if newline_at(first) < first.len() {
        lemma_newline_at(whole, newline_at(first));
    } else {
        lemma_newline_at(whole, first.len() + newline_at(rest));
    }
}

/// Nothing of an output is lost or moved: its lines put together are the output.
pub proof fn pieces_make_up_the_output(output: Seq<u8>)
    ensures
        together(pieces(output)) == output,
    decreases output.len(),
{
    if output.len() > 0 {
        newline_is_first(output);
        let size = taken(output, 0) as int;
        pieces_make_up_the_output(output.skip(size));
        assert(pieces(output).skip(1) == pieces(output.skip(size)));
        assert(output.take(size) + output.skip(size) == output);
    }
}

/// No line is empty, none is longer than the bound, and a newline is only ever
/// the last byte of one; a line without a newline is as long as the bound, or
/// the last.
pub proof fn pieces_are_bounded_lines(output: Seq<u8>, i: int)
    requires
        0 <= i < pieces(output).len(),
    ensures
        0 < pieces(output)[i].len() <= MAX_LINE_BYTES,
        forall|j: int|
            0 <= j < pieces(output)[i].len() - 1 ==> #[trigger] pieces(output)[i][j] != NEWLINE,
        i < pieces(output).len() - 1 && pieces(output)[i].len() < MAX_LINE_BYTES
            ==> pieces(output)[i].last() == NEWLINE,
    decreases output.len(),
{
    newline_is_first(output);
    let size = taken(output, 0) as int;
    let rest = output.skip(size);
    if i > 0 {
        pieces_are_bounded_lines(rest, i - 1);
        assert(pieces(output)[i] == pieces(rest)[i - 1]);
    } else {
        assert(pieces(output)[0] == output.take(size));
        if rest.len() == 0 {
            assert(pieces(rest).len() == 0);
        }
    }
}

/// The text without the line breaks it ends in.
pub open spec fn without_breaks(s: Seq<char>) -> Seq<char>
    decreases s.len(),
{
    if s.len() > 0 && (s.last() == '\n' || s.last() == '\r') {
        without_breaks(s.drop_last())
    } else {
        s
    }
}

/// What came after the last carriage return.
pub open spec fn since_return(s: Seq<char>) -> Seq<char>
    decreases s.len(),
{
    if s.len() == 0 || s.last() == '\r' {
        Seq::empty()
    } else {
        since_return(s.drop_last()).push(s.last())
    }
}

/// What is left of a line on the screen of a terminal.
pub open spec fn shown(s: Seq<char>) -> Seq<char> {
    since_return(without_breaks(s))
}

/// What is shown of a line holds no carriage return: it is the last of the
/// frames that a progress bar drew over each other.
pub proof fn shown_has_no_return(s: Seq<char>)
    ensures
        !shown(s).contains('\r'),
{
    lemma_since_return(without_breaks(s));
}

proof fn lemma_since_return(s: Seq<char>)
    ensures
        since_return(s).len() <= s.len(),
        since_return(s) == s.skip(s.len() - since_return(s).len()),
        !since_return(s).contains('\r'),
        since_return(s).len() < s.len() ==> s[s.len() - since_return(s).len() - 1] == '\r',
    decreases s.len(),
{
    if s.len() > 0 && s.last() != '\r' {
        lemma_since_return(s.drop_last());
        let before = since_return(s.drop_last());
        assert forall|i: int| 0 <= i < since_return(s).len() implies since_return(s)[i] != '\r' by {
            if i < before.len() {
                assert(before.contains(before[i]));
            }
        }
    }
}

/// Turns the raw bytes of one line into text. A progress bar redraws itself
/// with carriage returns, so only what came after the last one is kept: that is
/// what a terminal would have left on screen.
pub fn output_line(raw: &[u8]) -> (r: String)
    ensures
        r@ == shown(text::lossy_utf8(raw@)),
        vstd::utf8::valid_utf8(raw@) ==> r@ == shown(vstd::utf8::decode_utf8(raw@)),
{
    let all = text::lossy_text(raw);
    let chars = text::chars_of(all.as_str());
    let mut end: usize = chars.len();
    assert(chars@.take(end as int) == chars@);
    while end > 0 && (chars[end - 1] == '\n' || chars[end - 1] == '\r')
        invariant
            end <= chars@.len(),
            without_breaks(chars@.take(end as int)) == without_breaks(chars@),
        decreases end,
    {
        assert(chars@.take(end as int).drop_last() == chars@.take(end - 1));
        end = end - 1;
    }
    let ghost line = chars@.take(end as int);
    let mut start: usize = end;
    assert(line.take(end as int) == line);
    while start > 0 && chars[start - 1] != '\r'
        invariant
            start <= end <= chars@.len(),
            line == chars@.take(end as int),
            since_return(line) == since_return(line.take(start as int)) + line.skip(start as int),
        decreases start,
    {
        assert(line.take(start as int).drop_last() == line.take(start - 1));
        assert(line.skip(start - 1) == seq![line[start - 1]] + line.skip(start as int));
        start = start - 1;
    }
    let r = all.as_str().substring_char(start, end).to_owned();
    assert(since_return(line.take(start as int)) == Seq::<char>::empty());
    assert(r@ == line.skip(start as int));
    r
}

/// What is kept of an output of which `held` is kept already.
pub open spec fn kept(held: Seq<u8>, portion: Seq<u8>) -> Seq<u8> {
    if held.len() >= MAX_READ_OUTPUT {
        held
    } else if held.len() + portion.len() <= MAX_READ_OUTPUT {
        held + portion
    } else {
        held + portion.take(MAX_READ_OUTPUT - held.len())
    }
}

/// Keeps what there is room for of a further portion of an output.
pub fn keep_output(buffer: &mut Vec<u8>, portion: &[u8])
    ensures
        final(buffer)@ == kept(old(buffer)@, portion@),
{
    let room: usize = MAX_READ_OUTPUT.saturating_sub(buffer.len());
    let size: usize = if portion.len() < room {
        portion.len()
    } else {
        room
    };
    assert(portion@.take(portion@.len() as int) == portion@);
    assert(old(buffer)@ + portion@.take(0) == old(buffer)@);
    for i in 0..size
        invariant
            size <= portion@.len(),
            buffer@ == old(buffer)@ + portion@.take(i as int),
    {
        buffer.push(portion[i]);
        assert(portion@.take(i + 1) == portion@.take(i as int).push(portion@[i as int]));
    }
}

/// Of an output that comes in two portions the same is kept as of one that comes
/// in one.
pub proof fn kept_in_portions(held: Seq<u8>, first: Seq<u8>, rest: Seq<u8>)
    ensures
        kept(kept(held, first), rest) == kept(held, first + rest),
{
    assert(kept(kept(held, first), rest) =~= kept(held, first + rest));
}

/// The first bytes of an output are kept, up to the bound.
pub proof fn the_start_is_kept(output: Seq<u8>)
    ensures
        output.len() <= MAX_READ_OUTPUT ==> kept(Seq::empty(), output) == output,
        output.len() > MAX_READ_OUTPUT ==> kept(Seq::empty(), output) == output.take(
            MAX_READ_OUTPUT as int,
        ),
{
}

/// Of the bytes that are there a line takes those up to its newline, and that one
/// too; where there is none, or the line would run past sixty-four kilobytes, it
/// takes as many as there is room for. It is complete with its newline, when it
/// is full, and at the end of the output.
pub proof fn lines_end_at_newlines(available: Seq<u8>, held: nat, newline: nat)
    requires
        held < 65_536,
        newline <= available.len(),
        forall|i: int| 0 <= i < newline ==> #[trigger] available[i] != 10,
        newline < available.len() ==> available[newline as int] == 10,
    ensures
        newline < available.len() && held + newline < 65_536 ==> taken(available, held) == newline
            + 1 && is_line_end(available, held),
        newline == available.len() && held + newline < 65_536 ==> taken(available, held)
            == available.len() && is_line_end(available, held) == (available.len() == 0),
        held + newline >= 65_536 ==> taken(available, held) == 65_536 - held && is_line_end(
            available,
            held,
        ),
{
    lemma_newline_at(available, newline);
}

/// What is shown of a line: the breaks at its end are left out, and all that came
/// before the last carriage return that is left then; the rest is shown as it is.
pub proof fn the_last_frame_is_shown(before: Seq<char>, frame: Seq<char>, breaks: Seq<char>)
    requires
        forall|i: int| 0 <= i < frame.len() ==> #[trigger] frame[i] != '\r',
        frame.len() > 0 && frame.last() != '\n',
        forall|i: int|
            0 <= i < breaks.len() ==> #[trigger] breaks[i] == '\n' || breaks[i] == '\r',
        before.len() > 0 ==> before.last() == '\r',
    ensures
        shown(before + frame + breaks) == frame,
    decreases breaks.len(),
{
    let line = before + frame;
    lemma_breaks_go(line, breaks);
    lemma_since_return(line);
    let kept = since_return(line);
    if kept.len() > frame.len() {
        assert(kept[kept.len() - frame.len() - 1] == before.last());
        assert(kept.contains('\r'));
    }
    if kept.len() < frame.len() {
        let at = line.len() - kept.len() - 1;
        assert(line[at] == frame[at - before.len()]);
    }
    assert(kept =~= frame);
}

proof fn lemma_breaks_go(line: Seq<char>, breaks: Seq<char>)
    requires
        line.len() > 0,
        line.last() != '\n' && line.last() != '\r',
        forall|i: int|
            0 <= i < breaks.len() ==> #[trigger] breaks[i] == '\n' || breaks[i] == '\r',
    ensures
        without_breaks(line + breaks) == line,
    decreases breaks.len(),
{
    if breaks.len() == 0 {
        assert(line + breaks =~= line);
    } else {
        assert((line + breaks).drop_last() =~= line + breaks.drop_last());
        assert((line + breaks).last() == breaks[breaks.len() - 1]);
        lemma_breaks_go(line, breaks.drop_last());
    }
}

/// A line of breaks alone is shown as nothing.
pub proof fn breaks_are_not_shown(breaks: Seq<char>)
    requires
        forall|i: int|
            0 <= i < breaks.len() ==> #[trigger] breaks[i] == '\n' || breaks[i] == '\r',
    ensures
        shown(breaks).len() == 0,
    decreases breaks.len(),
{
    if breaks.len() > 0 {
        assert(breaks[breaks.len() - 1] == breaks.last());
        breaks_are_not_shown(breaks.drop_last());
    }
}

/// The first eight megabytes of an output are kept, and nothing behind them.
pub proof fn eight_megabytes_are_kept(output: Seq<u8>)
    ensures
        output.len() <= 8_388_608 ==> kept(Seq::empty(), output) == output,
        output.len() > 8_388_608 ==> kept(Seq::empty(), output) == output.take(8_388_608),
{
    the_start_is_kept(output);
}

} // verus!

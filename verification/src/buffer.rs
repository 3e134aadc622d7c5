//! A bounded log of output lines: capped both in the number of lines and in
//! the number of bytes, dropping the oldest lines first.

use crate::encoding::{
    byte_len, ends_with_newline, is_terminated, keep_tail, lemma_encode_concat,
    lemma_tail_exact_bytes, lemma_tail_fits, lemma_tail_keeps_newline, tail_within,
};
use std::collections::VecDeque;
use vstd::prelude::*;
use vstd::string::*;
use vstd::utf8::*;

verus! {

/// Fewest lines a buffer can be configured to hold.
pub const MIN_LINES: usize = 10;

/// Most lines a buffer can be configured to hold.
pub const MAX_LINES: usize = 10000;

/// Fewest bytes a buffer can be configured to hold.
pub const MIN_BYTES: usize = 1024;

/// Most bytes a buffer can be configured to hold (100 MiB).
pub const MAX_BYTES: usize = 104857600;

/// `value` forced into the range from `low` to `high`.
pub open spec fn clamped(value: nat, low: nat, high: nat) -> nat {
    if value < low {
        low
    } else if value > high {
        high
    } else {
        value
    }
}

/// Bytes taken by all of `lines` together.
pub open spec fn total_bytes_of(lines: Seq<Seq<char>>) -> nat
    decreases lines.len(),
{
    if lines.len() == 0 {
        0
    } else {
        total_bytes_of(lines.drop_last()) + byte_len(lines.last())
    }
}

/// All of `lines` written one after the other.
pub open spec fn joined(lines: Seq<Seq<char>>) -> Seq<char>
    decreases lines.len(),
{
    if lines.len() == 0 {
        Seq::empty()
    } else {
        joined(lines.drop_last()) + lines.last()
    }
}

/// A chunk made into a line: it gets a newline at its end unless it has one.
pub open spec fn as_line(chunk: Seq<char>) -> Seq<char> {
    if chunk.len() > 0 && chunk.last() == '\n' {
        chunk
    } else {
        chunk.push('\n')
    }
}

/// Whether `lines` respects both caps.
pub open spec fn within_limits(lines: Seq<Seq<char>>, max_lines: nat, max_bytes: nat) -> bool {
    lines.len() <= max_lines && total_bytes_of(lines) <= max_bytes
}

/// `lines` after the oldest lines have been dropped, one by one, until both
/// caps are respected.
pub open spec fn evicted(lines: Seq<Seq<char>>, max_lines: nat, max_bytes: nat) -> Seq<Seq<char>>
    decreases lines.len(),
{
    if lines.len() == 0 || within_limits(lines, max_lines, max_bytes) {
        lines
    } else {
        evicted(lines.drop_first(), max_lines, max_bytes)
    }
}

/// What a buffer holds after `chunk` has been appended to `lines`.
pub open spec fn appended(
    lines: Seq<Seq<char>>,
    chunk: Seq<char>,
    max_lines: nat,
    max_bytes: nat,
) -> Seq<Seq<char>> {
    if chunk.len() == 0 {
        lines
    } else {
        evicted(lines.push(tail_within(as_line(chunk), max_bytes)), max_lines, max_bytes)
    }
}

/// The last `count` of `lines`, or all of them where there are fewer.
pub open spec fn last_lines(lines: Seq<Seq<char>>, count: nat) -> Seq<Seq<char>> {
    if count >= lines.len() {
        lines
    } else {
        lines.subrange(lines.len() - count, lines.len() as int)
    }
}

/// Whole percent, rounded down, of the fuller of the two caps.
pub open spec fn usage_percent_of(lines: nat, bytes: nat, max_lines: nat, max_bytes: nat) -> nat
    recommends
        max_lines > 0,
        max_bytes > 0,
{
    let by_lines = (lines * 100) / max_lines;
    let by_bytes = (bytes * 100) / max_bytes;
    if by_lines >= by_bytes {
        by_lines
    } else {
        by_bytes
    }
}

/// Whether more than four fifths of either cap is in use.
pub open spec fn near_capacity_of(lines: nat, bytes: nat, max_lines: nat, max_bytes: nat) -> bool {
    5 * lines > 4 * max_lines || 5 * bytes > 4 * max_bytes
}

/// A line more takes its bytes more.
pub proof fn lemma_total_bytes_push(lines: Seq<Seq<char>>, line: Seq<char>)
    ensures
        total_bytes_of(lines.push(line)) == total_bytes_of(lines) + byte_len(line),
{
    assert(lines.push(line).drop_last() =~= lines);
}

/// The bytes of all lines are those of the first and those of the rest.
pub proof fn lemma_total_bytes_drop_first(lines: Seq<Seq<char>>)
    requires
        lines.len() > 0,
    ensures
        total_bytes_of(lines) == byte_len(lines[0]) + total_bytes_of(lines.drop_first()),
    decreases lines.len(),
{
    if lines.len() == 1 {
        assert(lines.drop_last() =~= Seq::<Seq<char>>::empty());
        assert(lines.drop_first() =~= Seq::<Seq<char>>::empty());
    } else {
        lemma_total_bytes_drop_first(lines.drop_last());
        assert(lines.drop_last().drop_first() =~= lines.drop_first().drop_last());
    }
}

/// Eviction always ends within both caps.
pub proof fn lemma_evicted_within_limits(lines: Seq<Seq<char>>, max_lines: nat, max_bytes: nat)
    ensures
        within_limits(evicted(lines, max_lines, max_bytes), max_lines, max_bytes),
    decreases lines.len(),
{
    if lines.len() == 0 || within_limits(lines, max_lines, max_bytes) {
    } else {
        lemma_evicted_within_limits(lines.drop_first(), max_lines, max_bytes);
    }
}

/// After any append the buffer respects both caps, whatever it held before.
pub proof fn lemma_appended_within_limits(
    lines: Seq<Seq<char>>,
    chunk: Seq<char>,
    max_lines: nat,
    max_bytes: nat,
)
    requires
        within_limits(lines, max_lines, max_bytes),
    ensures
        within_limits(appended(lines, chunk, max_lines, max_bytes), max_lines, max_bytes),
{
    if chunk.len() > 0 {
        lemma_evicted_within_limits(
            lines.push(tail_within(as_line(chunk), max_bytes)),
            max_lines,
            max_bytes,
        );
    }
}

/// Eviction never drops the newest line, as long as that line alone
/// respects both caps.
pub proof fn lemma_evicted_keeps_newest(
    lines: Seq<Seq<char>>,
    newest: Seq<char>,
    max_lines: nat,
    max_bytes: nat,
)
    requires
        max_lines >= 1,
        byte_len(newest) <= max_bytes,
    ensures
        evicted(lines.push(newest), max_lines, max_bytes).len() >= 1,
        evicted(lines.push(newest), max_lines, max_bytes).last() == newest,
    decreases lines.len(),
{
    let all = lines.push(newest);
    if within_limits(all, max_lines, max_bytes) {
    } else {
        if lines.len() == 0 {
            lemma_total_bytes_push(lines, newest);
        } else {
            assert(all.drop_first() =~= lines.drop_first().push(newest));
            lemma_evicted_keeps_newest(lines.drop_first(), newest, max_lines, max_bytes);
        }
    }
}

/// A chunk whose line is longer than the byte cap is retained as exactly the
/// last `max_bytes` bytes of that line, wherever those bytes start between
/// two characters.
pub proof fn lemma_oversized_chunk_keeps_last_bytes(
    lines: Seq<Seq<char>>,
    chunk: Seq<char>,
    max_lines: nat,
    max_bytes: nat,
)
    requires
        max_lines >= 1,
        chunk.len() > 0,
        byte_len(as_line(chunk)) > max_bytes,
        is_char_boundary(encode_utf8(as_line(chunk)), byte_len(as_line(chunk)) - max_bytes),
    ensures
        appended(lines, chunk, max_lines, max_bytes).len() >= 1,
        encode_utf8(appended(lines, chunk, max_lines, max_bytes).last()) == encode_utf8(
            as_line(chunk),
        ).subrange(byte_len(as_line(chunk)) - max_bytes, byte_len(as_line(chunk)) as int),
        byte_len(appended(lines, chunk, max_lines, max_bytes).last()) == max_bytes,
{
    let line = as_line(chunk);
    lemma_tail_exact_bytes(line, max_bytes);
    lemma_evicted_keeps_newest(lines, tail_within(line, max_bytes), max_lines, max_bytes);
}

/// Asking for at least as many lines as are retained gives all of them.
pub proof fn lemma_recent_covers_all(lines: Seq<Seq<char>>, count: nat)
    requires
        count >= lines.len(),
    ensures
        joined(last_lines(lines, count)) == joined(lines),
{
}

/// Asking for no line gives the empty text.
pub proof fn lemma_recent_of_none(lines: Seq<Seq<char>>)
    ensures
        joined(last_lines(lines, 0)) == Seq::<char>::empty(),
{
    if lines.len() > 0 {
        assert(last_lines(lines, 0) =~= Seq::<Seq<char>>::empty());
    }
}

/// While both caps are respected an append drops nothing: the buffer then
/// holds what it held, followed by the chunk as a line.
pub proof fn lemma_append_without_eviction(
    lines: Seq<Seq<char>>,
    chunk: Seq<char>,
    max_lines: nat,
    max_bytes: nat,
)
    requires
        chunk.len() > 0,
        within_limits(lines.push(as_line(chunk)), max_lines, max_bytes),
    ensures
        appended(lines, chunk, max_lines, max_bytes) == lines.push(as_line(chunk)),
{
    lemma_total_bytes_push(lines, as_line(chunk));
    lemma_tail_fits(as_line(chunk), max_bytes);
}

/// What a buffer holds after all of `chunks` have been appended in order.
pub open spec fn appended_all(
    lines: Seq<Seq<char>>,
    chunks: Seq<Seq<char>>,
    max_lines: nat,
    max_bytes: nat,
) -> Seq<Seq<char>>
    decreases chunks.len(),
{
    if chunks.len() == 0 {
        lines
    } else {
        appended(
            appended_all(lines, chunks.drop_last(), max_lines, max_bytes),
            chunks.last(),
            max_lines,
            max_bytes,
        )
    }
}

/// After any sequence of appends the buffer respects both caps.
pub proof fn lemma_appended_all_within_limits(
    lines: Seq<Seq<char>>,
    chunks: Seq<Seq<char>>,
    max_lines: nat,
    max_bytes: nat,
)
    requires
        within_limits(lines, max_lines, max_bytes),
    ensures
        within_limits(appended_all(lines, chunks, max_lines, max_bytes), max_lines, max_bytes),
    decreases chunks.len(),
{
    if chunks.len() > 0 {
        lemma_appended_all_within_limits(lines, chunks.drop_last(), max_lines, max_bytes);
        lemma_appended_within_limits(
            appended_all(lines, chunks.drop_last(), max_lines, max_bytes),
            chunks.last(),
            max_lines,
            max_bytes,
        );
    }
}

/// The lines written one after the other take as many bytes as the lines
/// take together.
pub proof fn lemma_joined_byte_len(lines: Seq<Seq<char>>)
    ensures
        byte_len(joined(lines)) == total_bytes_of(lines),
    decreases lines.len(),
{
    if lines.len() == 0 {
        assert(encode_utf8(Seq::<char>::empty()) =~= Seq::<u8>::empty());
    } else {
        lemma_joined_byte_len(lines.drop_last());
        lemma_encode_concat(joined(lines.drop_last()), lines.last());
    }
}

/// Whether every line is not empty and ends in a newline.
pub open spec fn all_terminated(lines: Seq<Seq<char>>) -> bool {
    forall|i: int| 0 <= i < lines.len() ==> is_terminated(#[trigger] lines[i])
}

/// Eviction drops lines from the front only: what stays is the end of
/// what was there.
pub proof fn lemma_evicted_is_tail(lines: Seq<Seq<char>>, max_lines: nat, max_bytes: nat)
    ensures
        evicted(lines, max_lines, max_bytes).len() <= lines.len(),
        evicted(lines, max_lines, max_bytes) == lines.skip(
            lines.len() - evicted(lines, max_lines, max_bytes).len(),
        ),
    decreases lines.len(),
{
    if lines.len() == 0 || within_limits(lines, max_lines, max_bytes) {
        assert(lines.skip(0) =~= lines);
    } else {
        let rest = lines.drop_first();
        lemma_evicted_is_tail(rest, max_lines, max_bytes);
        let kept = evicted(rest, max_lines, max_bytes);
        assert(rest.skip(rest.len() - kept.len()) =~= lines.skip(lines.len() - kept.len()));
    }
}

/// Every line that a buffer retains ends in a newline: an append keeps it
/// so, since a chunk is made a line before it is stored and a line is cut
/// from the front only.
pub proof fn lemma_appended_lines_are_terminated(
    lines: Seq<Seq<char>>,
    chunk: Seq<char>,
    max_lines: nat,
    max_bytes: nat,
)
    requires
        all_terminated(lines),
        max_bytes >= 1,
    ensures
        all_terminated(appended(lines, chunk, max_lines, max_bytes)),
{
    if chunk.len() > 0 {
        let line = tail_within(as_line(chunk), max_bytes);
        let all = lines.push(line);
        lemma_tail_keeps_newline(as_line(chunk), max_bytes);
        lemma_evicted_is_tail(all, max_lines, max_bytes);
        let kept = evicted(all, max_lines, max_bytes);
        assert forall|i: int| 0 <= i < kept.len() implies is_terminated(#[trigger] kept[i]) by {
            let j = i + (all.len() - kept.len());
            assert(kept[i] == all[j]);
            if j < lines.len() {
                assert(all[j] == lines[j]);
            }
        }
    }
}

/// A part of a whole is at most one hundred percent of it.
pub proof fn lemma_percent_bounded(part: nat, whole: nat)
    requires
        part <= whole,
        whole > 0,
    ensures
        (part * 100) / whole <= 100,
{
    assert((part * 100) / whole <= 100) by (nonlinear_arith)
        requires
            part <= whole,
            whole > 0,
    ;
}

/// Usage figures of a buffer, as whole numbers.
pub struct BufferStats {
    pub lines: usize,
    pub bytes: usize,
    pub max_lines: usize,
    pub max_bytes: usize,
    /// Whole percent, rounded down, of the fuller of the two caps.
    pub usage_percent: usize,
}

/// Bounded log of output lines.
pub struct CircularOutputBuffer {
    buffer: VecDeque<String>,
    max_lines: usize,
    max_bytes: usize,
    current_bytes: usize,
}

impl View for CircularOutputBuffer {
    type V = Seq<Seq<char>>;

    /// The retained lines, oldest first.
    closed spec fn view(&self) -> Seq<Seq<char>> {
        Seq::new(self.buffer@.len(), |i: int| self.buffer@[i]@)
    }
}

impl CircularOutputBuffer {
    /// The cap on the number of lines.
    pub closed spec fn line_limit(&self) -> nat {
        self.max_lines as nat
    }

    /// The cap on the number of bytes.
    pub closed spec fn byte_limit(&self) -> nat {
        self.max_bytes as nat
    }

    /// The caps are in their ranges and the running byte count is right.
    pub closed spec fn counted(&self) -> bool {
        &&& MIN_LINES <= self.max_lines <= MAX_LINES
        &&& MIN_BYTES <= self.max_bytes <= MAX_BYTES
        &&& self.current_bytes == total_bytes_of(self@)
        &&& all_terminated(self@)
    }

    /// The buffer is consistent and within both caps.
    pub closed spec fn wf(&self) -> bool {
        &&& self.counted()
        &&& within_limits(self@, self.line_limit(), self.byte_limit())
    }

    /// A buffer that is in order respects both caps, and its caps are in
    /// their ranges.
    pub proof fn lemma_wf_within_limits(&self)
        requires
            self.wf(),
        ensures
            MIN_LINES <= self.line_limit() <= MAX_LINES,
            MIN_BYTES <= self.byte_limit() <= MAX_BYTES,
            self@.len() <= self.line_limit(),
            total_bytes_of(self@) <= self.byte_limit(),
            all_terminated(self@),
    {
    }

    /// An empty buffer whose caps are the given ones forced into their ranges.
    pub fn new(max_lines: usize, max_bytes: usize) -> (buffer: Self)
        ensures
            buffer.wf(),
            buffer@ == Seq::<Seq<char>>::empty(),
            buffer.line_limit() == clamped(max_lines as nat, MIN_LINES as nat, MAX_LINES as nat),
            buffer.byte_limit() == clamped(max_bytes as nat, MIN_BYTES as nat, MAX_BYTES as nat),
    {
        let max_lines: usize = if max_lines < MIN_LINES {
            MIN_LINES
        } else if max_lines > MAX_LINES {
            MAX_LINES
        } else {
            max_lines
        };
        let max_bytes: usize = if max_bytes < MIN_BYTES {
            MIN_BYTES
        } else if max_bytes > MAX_BYTES {
            MAX_BYTES
        } else {
            max_bytes
        };
        let buffer = CircularOutputBuffer {
            buffer: VecDeque::with_capacity(max_lines),
            max_lines,
            max_bytes,
            current_bytes: 0,
        };
        assert(buffer@ =~= Seq::<Seq<char>>::empty());
        buffer
    }

    /// Appends `output` as one line. Empty output changes nothing. The line
    /// gets a newline at its end unless it has one; of a line longer than the
    /// byte cap only the tail that fits is kept; then the oldest lines are
    /// dropped until both caps are respected again.
    pub fn append(&mut self, output: &str)
        requires
            old(self).wf(),
        ensures
            final(self).wf(),
            final(self).line_limit() == old(self).line_limit(),
            final(self).byte_limit() == old(self).byte_limit(),
            final(self)@ == appended(
                old(self)@,
                output@,
                old(self).line_limit(),
                old(self).byte_limit(),
            ),
            final(self)@.len() <= final(self).line_limit(),
            total_bytes_of(final(self)@) <= final(self).byte_limit(),
            all_terminated(final(self)@),
    {
        if output.is_empty() {
            return ;
        }
        let line: String = if ends_with_newline(output) {
            keep_tail(output, self.max_bytes)
        } else {
            let mut whole: String = output.to_owned();
            proof {
                reveal_strlit("\n");
                assert("\n"@ =~= seq!['\n']);
            }
            whole.append("\n");
            assert(whole@ =~= as_line(output@));
            keep_tail(whole.as_str(), self.max_bytes)
        };
        let line_bytes: usize = line.as_str().as_bytes().len();
        proof {
            lemma_tail_fits(as_line(output@), self.max_bytes as nat);
            lemma_tail_keeps_newline(as_line(output@), self.max_bytes as nat);
            lemma_total_bytes_push(self@, line@);
        }
        let ghost before = self@;
        self.buffer.push_back(line);
        self.current_bytes = self.current_bytes + line_bytes;
        assert(self@ =~= before.push(line@));
        self.enforce_limits();
    }

    /// Drops the oldest lines until both caps are respected.
    fn enforce_limits(&mut self)
        requires
            old(self).counted(),
        ensures
            final(self).wf(),
            final(self).line_limit() == old(self).line_limit(),
            final(self).byte_limit() == old(self).byte_limit(),
            final(self)@ == evicted(old(self)@, old(self).line_limit(), old(self).byte_limit()),
    {
        while self.buffer.len() > self.max_lines || self.current_bytes > self.max_bytes
            invariant
                self.counted(),
                self.max_lines == old(self).max_lines,
                self.max_bytes == old(self).max_bytes,
                evicted(self@, self.max_lines as nat, self.max_bytes as nat) == evicted(
                    old(self)@,
                    old(self).max_lines as nat,
                    old(self).max_bytes as nat,
                ),
            decreases self.buffer.len(),
        {
            let ghost before = self@;
            match self.buffer.pop_front() {
                Some(old_line) => {
                    proof {
                        lemma_total_bytes_drop_first(before);
                        assert(self@ =~= before.drop_first());
                    }
                    self.current_bytes = self.current_bytes - old_line.as_str().as_bytes().len();
                },
                None => {
                    assert(before.len() == 0);
                    assert(total_bytes_of(before) == 0);
                },
            }
        }
    }

    /// The last `lines` lines, or all of them where there are fewer, written
    /// one after the other.
    pub fn get_recent(&self, lines: usize) -> (text: String)
        requires
            self.wf(),
        ensures
            text@ == joined(last_lines(self@, lines as nat)),
    {
        let total: usize = self.buffer.len();
        let lines_to_get: usize = if lines < total {
            lines
        } else {
            total
        };
        let start: usize = total - lines_to_get;
        let ghost wanted = last_lines(self@, lines as nat);
        assert(wanted =~= self@.subrange(start as int, total as int));
        let mut text: String = String::new();
        let mut i: usize = start;
        while i < total
            invariant
                start <= i <= total,
                total == self.buffer@.len(),
                total == self@.len(),
                wanted == self@.subrange(start as int, total as int),
                text@ == joined(wanted.take(i - start)),
            decreases total - i,
        {
            proof {
                assert(wanted.take(i - start + 1).drop_last() =~= wanted.take(i - start));
                assert(wanted.take(i - start + 1).last() == self@[i as int]);
            }
            text.append(self.buffer[i].as_str());
            i = i + 1;
        }
        assert(wanted.take(total - start) =~= wanted);
        text
    }

    /// Every retained line, oldest first, written one after the other.
    pub fn get_all(&self) -> (text: String)
        requires
            self.wf(),
        ensures
            text@ == joined(self@),
    {
        self.get_recent(self.buffer.len())
    }

    /// Empties the buffer.
    pub fn clear(&mut self)
        requires
            old(self).wf(),
        ensures
            final(self).wf(),
            final(self)@ == Seq::<Seq<char>>::empty(),
            final(self).line_limit() == old(self).line_limit(),
            final(self).byte_limit() == old(self).byte_limit(),
    {
        self.buffer.clear();
        self.current_bytes = 0;
        assert(self@ =~= Seq::<Seq<char>>::empty());
    }

    /// Number of retained lines.
    pub fn len(&self) -> (count: usize)
        requires
            self.wf(),
        ensures
            count == self@.len(),
            count <= self.line_limit(),
    {
        self.buffer.len()
    }

    /// Whether no line is retained.
    pub fn is_empty(&self) -> (empty: bool)
        requires
            self.wf(),
        ensures
            empty == (self@.len() == 0),
    {
        self.buffer.len() == 0
    }

    /// Bytes taken by the retained lines.
    pub fn total_bytes(&self) -> (bytes: usize)
        requires
            self.wf(),
        ensures
            bytes == total_bytes_of(self@),
            bytes <= self.byte_limit(),
    {
        self.current_bytes
    }

    /// Whole percent, rounded down, of the fuller of the two caps.
    pub fn usage_percent(&self) -> (percent: usize)
        requires
            self.wf(),
        ensures
            percent == usage_percent_of(
                self@.len(),
                total_bytes_of(self@),
                self.line_limit(),
                self.byte_limit(),
            ),
            percent <= 100,
    {
        let lines: u64 = self.buffer.len() as u64;
        let bytes: u64 = self.current_bytes as u64;
        let line_cap: u64 = self.max_lines as u64;
        let byte_cap: u64 = self.max_bytes as u64;
        proof {
            lemma_percent_bounded(lines as nat, line_cap as nat);
            lemma_percent_bounded(bytes as nat, byte_cap as nat);
        }
        let by_lines: u64 = lines * 100 / line_cap;
        let by_bytes: u64 = bytes * 100 / byte_cap;
        if by_lines >= by_bytes {
            by_lines as usize
        } else {
            by_bytes as usize
        }
    }

    /// Whether more than four fifths of either cap is in use.
    pub fn is_near_capacity(&self) -> (near: bool)
        requires
            self.wf(),
        ensures
            near == near_capacity_of(
                self@.len(),
                total_bytes_of(self@),
                self.line_limit(),
                self.byte_limit(),
            ),
    {
        5 * self.buffer.len() > 4 * self.max_lines || 5 * self.current_bytes > 4 * self.max_bytes
    }

    /// Line count, byte count, both caps and the usage in percent.
    pub fn stats(&self) -> (stats: BufferStats)
        requires
            self.wf(),
        ensures
            stats.lines == self@.len(),
            stats.bytes == total_bytes_of(self@),
            stats.max_lines == self.line_limit(),
            stats.max_bytes == self.byte_limit(),
            stats.usage_percent == usage_percent_of(
                self@.len(),
                total_bytes_of(self@),
                self.line_limit(),
                self.byte_limit(),
            ),
    {
        BufferStats {
            lines: self.buffer.len(),
            bytes: self.current_bytes,
            max_lines: self.max_lines,
            max_bytes: self.max_bytes,
            usage_percent: self.usage_percent(),
        }
    }
}

} // verus!

//! Line buffering of log output.
//!
//! Log output is sanitized line by line, so that nothing that must not be logged
//! slips through where it is split between two writes.

use vstd::prelude::*;

verus! {

/// The byte that ends a line.
pub const NEWLINE: u8 = 0x0A;

/// Collects log output until a line is complete.
#[derive(Clone, Debug)]
pub struct SanitizingWriter {
    pub buffered: Vec<u8>,
}

/// Lines, each with the byte that ends it, one behind the other.
pub open spec fn joined(lines: Seq<Seq<u8>>) -> Seq<u8>
    decreases lines.len(),
{
    if lines.len() == 0 {
        Seq::empty()
    } else {
        joined(lines.drop_last()) + lines.last().push(NEWLINE)
    }
}

/// Whether bytes hold no line end.
pub open spec fn is_unbroken(bytes: Seq<u8>) -> bool {
    forall|i: int| 0 <= i < bytes.len() ==> #[trigger] bytes[i] != NEWLINE
}

/// Whether `lines` and `rest` are the lines of `bytes` and what follows the last
/// one.
pub open spec fn is_split(lines: Seq<Seq<u8>>, rest: Seq<u8>, bytes: Seq<u8>) -> bool {
    &&& joined(lines) + rest == bytes
    &&& is_unbroken(rest)
    &&& forall|i: int| 0 <= i < lines.len() ==> is_unbroken(#[trigger] lines[i])
}

impl SanitizingWriter {
    pub fn new() -> (r: Self)
        ensures
            r.buffered@.len() == 0,
    {
        SanitizingWriter { buffered: Vec::new() }
    }

    /// Takes more output.
    pub fn extend(&mut self, bytes: &[u8])
        ensures
            final(self).buffered@ == old(self).buffered@ + bytes@,
    {
        self.buffered.extend_from_slice(bytes);
        assert(self.buffered@ =~= old(self).buffered@ + bytes@);
    }

    /// Hands out the first complete line that waits, without the byte that ends it.
    /// The others keep waiting.
    pub fn flush_complete_line(&mut self) -> (r: Option<Vec<u8>>)
        ensures
            match r {
                Some(line) => is_unbroken(line@) && old(self).buffered@ == line@.push(NEWLINE)
                    + final(self).buffered@,
                None => is_unbroken(old(self).buffered@) && final(self).buffered@ == old(
                    self,
                ).buffered@,
            },
    {
        let ghost start = self.buffered@;
        let mut i: usize = 0;
        while i < self.buffered.len()
            invariant
                self.buffered@ == start,
                start == old(self).buffered@,
                i <= start.len(),
                forall|k: int| 0 <= k < i ==> #[trigger] start[k] != NEWLINE,
            decreases start.len() - i,
        {
            if self.buffered[i] == NEWLINE {
                let rest: Vec<u8> = self.buffered.split_off(i + 1);
                let mut line: Vec<u8> = Vec::new();
                line.append(&mut self.buffered);
                let _ = line.pop();
                self.buffered = rest;
                assert(line@ =~= start.take(i as int));
                assert(start =~= line@.push(NEWLINE) + rest@);
                return Some(line);
            }
            i += 1;
        }
        None
    }

    /// Hands out all that waits, if anything does.
    pub fn flush_buffered_tail(&mut self) -> (r: Option<Vec<u8>>)
        ensures
            final(self).buffered@.len() == 0,
            match r {
                Some(tail) => tail@ == old(self).buffered@ && tail@.len() > 0,
                None => old(self).buffered@.len() == 0,
            },
    {
        if self.buffered.len() == 0 {
            return None;
        }
        let ghost start = self.buffered@;
        let mut tail: Vec<u8> = Vec::new();
        tail.append(&mut self.buffered);
        assert(tail@ =~= start);
        Some(tail)
    }
}

/// A line that is handed out is the first of those that the output is split into, and
/// what waits then is split into the others.
pub proof fn lines_are_handed_out_in_order(
    line: Seq<u8>,
    lines: Seq<Seq<u8>>,
    rest: Seq<u8>,
    waiting: Seq<u8>,
)
    requires
        is_unbroken(line),
        is_split(lines, rest, waiting),
    ensures
        is_split(seq![line] + lines, rest, line.push(NEWLINE) + waiting),
{
    lemma_joined_from_the_front(line, lines);
    let all = seq![line] + lines;
    assert(joined(all) + rest =~= line.push(NEWLINE) + waiting);
    assert forall|i: int| 0 <= i < all.len() implies is_unbroken(#[trigger] all[i]) by {
        if i > 0 {
            assert(all[i] == lines[i - 1]);
        }
    }
}

proof fn lemma_joined_from_the_front(line: Seq<u8>, lines: Seq<Seq<u8>>)
    ensures
        joined(seq![line] + lines) == line.push(NEWLINE) + joined(lines),
    decreases lines.len(),
{
    let all = seq![line] + lines;
    if lines.len() == 0 {
        assert(all =~= seq![line]);
        assert(all.drop_last() =~= Seq::<Seq<u8>>::empty());
        assert(joined(all.drop_last()) =~= Seq::<u8>::empty());
        assert(joined(lines) =~= Seq::<u8>::empty());
        assert(joined(all) =~= line.push(NEWLINE) + joined(lines));
    } else {
        lemma_joined_from_the_front(line, lines.drop_last());
        assert(all.drop_last() =~= seq![line] + lines.drop_last());
        assert(all.last() == lines.last());
        assert(joined(all) =~= line.push(NEWLINE) + joined(lines));
    }
}

/// Output is split into lines in one way only.
pub proof fn lines_are_determined_by_the_output(
    lines: Seq<Seq<u8>>,
    rest: Seq<u8>,
    others: Seq<Seq<u8>>,
    other_rest: Seq<u8>,
    bytes: Seq<u8>,
)
    requires
        is_split(lines, rest, bytes),
        is_split(others, other_rest, bytes),
    ensures
        lines == others,
        rest == other_rest,
    decreases bytes.len(),
{
    lemma_last_newline(lines, rest, bytes);
    lemma_last_newline(others, other_rest, bytes);
    assert(rest.len() == other_rest.len()) by {
        if rest.len() < other_rest.len() {
            let at = bytes.len() - rest.len() - 1;
            if lines.len() > 0 {
                assert(bytes[at] == NEWLINE);
                assert(bytes[at] == other_rest[at - (bytes.len() - other_rest.len())]);
            } else {
                assert(rest =~= bytes);
            }
        } else if other_rest.len() < rest.len() {
            let at = bytes.len() - other_rest.len() - 1;
            if others.len() > 0 {
                assert(bytes[at] == NEWLINE);
                assert(bytes[at] == rest[at - (bytes.len() - rest.len())]);
            } else {
                assert(other_rest =~= bytes);
            }
        }
    }
    assert(rest =~= bytes.skip(bytes.len() - rest.len()));
    assert(other_rest =~= bytes.skip(bytes.len() - rest.len()));
    let n = bytes.len() - rest.len();
    assert(joined(lines) =~= bytes.take(n));
    assert(joined(others) =~= bytes.take(n));
    if lines.len() == 0 || others.len() == 0 {
        lemma_joined_length(lines);
        lemma_joined_length(others);
        assert(lines =~= others);
    } else {
        let shorter = bytes.take(n - 1);
        assert(joined(lines) =~= (joined(lines.drop_last()) + lines.last()).push(NEWLINE));
        assert(joined(others) =~= (joined(others.drop_last()) + others.last()).push(NEWLINE));
        assert(joined(lines).drop_last() =~= joined(lines.drop_last()) + lines.last());
        assert(joined(others).drop_last() =~= joined(others.drop_last()) + others.last());
        assert(joined(lines).drop_last() =~= shorter);
        assert(joined(others).drop_last() =~= shorter);
        assert(is_split(lines.drop_last(), lines.last(), shorter));
        assert(is_split(others.drop_last(), others.last(), shorter));
        lines_are_determined_by_the_output(
            lines.drop_last(),
            lines.last(),
            others.drop_last(),
            others.last(),
            shorter,
        );
        assert(lines =~= lines.drop_last().push(lines.last()));
        assert(others =~= others.drop_last().push(others.last()));
    }
}

proof fn lemma_joined_length(lines: Seq<Seq<u8>>)
    ensures
        joined(lines).len() >= lines.len(),
    decreases lines.len(),
{
    if lines.len() > 0 {
        lemma_joined_length(lines.drop_last());
    }
}

proof fn lemma_last_newline(lines: Seq<Seq<u8>>, rest: Seq<u8>, bytes: Seq<u8>)
    requires
        is_split(lines, rest, bytes),
    ensures
        rest.len() <= bytes.len(),
        forall|i: int| 0 <= i < rest.len() ==> bytes[bytes.len() - rest.len() + i] == rest[i],
        lines.len() > 0 ==> rest.len() < bytes.len() && bytes[bytes.len() - rest.len() - 1]
            == NEWLINE,
{
    let head = joined(lines);
    assert(bytes == head + rest);
    if lines.len() > 0 {
        assert(head.last() == NEWLINE);
        assert(bytes[head.len() - 1] == head[head.len() - 1]);
    }
}

/// Joining ends every line with a newline, in order, and adds nothing else.
pub proof fn joined_lines_end_with_newlines(lines: Seq<Seq<u8>>, line: Seq<u8>)
    ensures
        joined(Seq::<Seq<u8>>::empty()).len() == 0,
        joined(lines.push(line)) == joined(lines) + line + seq![0x0Au8],
{
    assert(lines.push(line).drop_last() =~= lines);
    assert(joined(lines) + line.push(NEWLINE) =~= joined(lines) + line + seq![0x0Au8]);
}

} // verus!

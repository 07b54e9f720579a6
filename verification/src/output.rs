//! Cumulative output of one builder generation.
//!
//! The reader worker turns the child's two byte streams into tagged
//! lines; the supervisor appends each line, plus a terminating newline,
//! to the buffer matching its origin stream.  The buffers only grow
//! within a generation; a redeploy replaces them wholesale.
//!
//! The contracts here preserve the reader's delivery order, whatever it
//! is.  The host's reader drains stdout to end-of-stream before it
//! starts on stderr — a deliberate shortcut, fine for scripts whose
//! stdout ends (or stays quiet) before stderr matters, and *not* true
//! real-time interleaving.  A host wanting arrival order instead can
//! run one reader per stream feeding the same channel; nothing in this
//! module changes.

use vstd::prelude::*;

verus! {

/// One line produced by a builder process, tagged with the stream it
/// came from.  The line text itself carries no terminating newline; the
/// newline is added when the line is appended to a buffer.
pub enum TaggedLine {
    /// A line read from the child's standard output.
    Stdout(String),
    /// A line read from the child's standard error.
    Stderr(String),
}

/// What one tagged line contributes to the stdout buffer: the text plus
/// a newline for a stdout line, nothing for a stderr line.
pub open spec fn line_out(l: TaggedLine) -> Seq<char> {
    match l {
        TaggedLine::Stdout(s) => s@ + seq!['\n'],
        TaggedLine::Stderr(_) => Seq::<char>::empty(),
    }
}

/// What one tagged line contributes to the stderr buffer.
pub open spec fn line_err(l: TaggedLine) -> Seq<char> {
    match l {
        TaggedLine::Stdout(_) => Seq::<char>::empty(),
        TaggedLine::Stderr(s) => s@ + seq!['\n'],
    }
}

/// The stdout text accumulated from a sequence of tagged lines, in
/// delivery order.
pub open spec fn out_text(lines: Seq<TaggedLine>) -> Seq<char>
    decreases lines.len(),
{
    if lines.len() == 0 {
        Seq::<char>::empty()
    } else {
        out_text(lines.drop_last()) + line_out(lines.last())
    }
}

/// The stderr text accumulated from a sequence of tagged lines, in
/// delivery order.
pub open spec fn err_text(lines: Seq<TaggedLine>) -> Seq<char>
    decreases lines.len(),
{
    if lines.len() == 0 {
        Seq::<char>::empty()
    } else {
        err_text(lines.drop_last()) + line_err(lines.last())
    }
}

/// Accumulated text appends piecewise: the text of a concatenation of
/// two line sequences is the concatenation of their texts.  This is what
/// makes draining incremental — however the produced lines are split
/// across drains, the buffers end up holding the text of the full
/// sequence, nothing lost and nothing duplicated.
pub proof fn lemma_text_concat(a: Seq<TaggedLine>, b: Seq<TaggedLine>)
    ensures
        out_text(a + b) == out_text(a) + out_text(b),
        err_text(a + b) == err_text(a) + err_text(b),
    decreases b.len(),
{
    if b.len() == 0 {
        assert(a + b =~= a);
        assert(out_text(a) + out_text(b) =~= out_text(a));
        assert(err_text(a) + err_text(b) =~= err_text(a));
    } else {
        lemma_text_concat(a, b.drop_last());
        assert((a + b).drop_last() =~= a + b.drop_last());
        assert((a + b).last() == b.last());
        assert(out_text(a) + out_text(b.drop_last()) + line_out(b.last()) =~= out_text(a)
            + (out_text(b.drop_last()) + line_out(b.last())));
        assert(err_text(a) + err_text(b.drop_last()) + line_err(b.last()) =~= err_text(a)
            + (err_text(b.drop_last()) + line_err(b.last())));
    }
}

/// The two append-only text buffers of one builder generation.
pub struct Output {
    /// Everything the child wrote to stdout so far, newline-terminated
    /// line by line.
    pub out: String,
    /// Everything the child wrote to stderr so far, newline-terminated
    /// line by line.
    pub err: String,
}

impl Output {
    /// A fresh, empty pair of buffers for a new generation.
    pub fn new() -> (o: Output)
        ensures
            o.out@ == Seq::<char>::empty(),
            o.err@ == Seq::<char>::empty(),
    {
        Output { out: String::new(), err: String::new() }
    }

    /// Append a batch of tagged lines to the matching buffers, each line
    /// followed by a newline, in delivery order.
    pub fn append_lines(&mut self, lines: &Vec<TaggedLine>)
        ensures
            final(self).out@ == old(self).out@ + out_text(lines@),
            final(self).err@ == old(self).err@ + err_text(lines@),
    {
        proof {
            reveal_strlit("\n");
            assert(lines@.take(0) =~= Seq::<TaggedLine>::empty());
            assert(old(self).out@ + out_text(lines@.take(0)) =~= old(self).out@);
            assert(old(self).err@ + err_text(lines@.take(0)) =~= old(self).err@);
        }
        let mut i: usize = 0;
        while i < lines.len()
            invariant
                i <= lines@.len(),
                self.out@ == old(self).out@ + out_text(lines@.take(i as int)),
                self.err@ == old(self).err@ + err_text(lines@.take(i as int)),
            decreases lines@.len() - i,
        {
            proof {
                reveal_strlit("\n");
                assert("\n"@ =~= seq!['\n']);
                assert(lines@.take(i + 1).drop_last() =~= lines@.take(i as int));
                assert(lines@.take(i + 1).last() == lines@[i as int]);
            }
            match &lines[i] {
                TaggedLine::Stdout(s) => {
                    self.out.append(s.as_str());
                    self.out.append("\n");
                    proof {
                        assert(self.out@ =~= old(self).out@ + out_text(lines@.take(i + 1)));
                        assert(self.err@ =~= old(self).err@ + err_text(lines@.take(i + 1)));
                    }
                },
                TaggedLine::Stderr(s) => {
                    self.err.append(s.as_str());
                    self.err.append("\n");
                    proof {
                        assert(self.out@ =~= old(self).out@ + out_text(lines@.take(i + 1)));
                        assert(self.err@ =~= old(self).err@ + err_text(lines@.take(i + 1)));
                    }
                },
            }
            i = i + 1;
        }
        proof {
            assert(lines@.take(lines@.len() as int) =~= lines@);
        }
    }

    /// An independent copy of the buffers, for handing the caller the
    /// full history without giving up the accumulator.
    pub fn snapshot(&self) -> (o: Output)
        ensures
            o.out@ == self.out@,
            o.err@ == self.err@,
    {
        Output { out: self.out.clone(), err: self.err.clone() }
    }
}

} // verus!

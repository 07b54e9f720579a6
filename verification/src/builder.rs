//! One supervised builder: a named script kept running as the leader of
//! its own process group, together with the cumulative output of its
//! current generation.
//!
//! The host spawns the script (making the child a session/group leader)
//! and reads its pipes on a worker; this module owns the resulting plain
//! state — the name, the process-group id, the buffers — and says what
//! each operation does to it.  The ghost `history` records every tagged
//! line delivered to this generation, so the contracts can state that
//! the buffers hold exactly the text of those lines.

use vstd::prelude::*;
use crate::output::{Output, TaggedLine, out_text, err_text, lemma_text_concat};

verus! {

/// Supervisor state for one generation of one builder.
pub struct Builder {
    /// The builder's stable name; also the script file to execute.
    name: String,
    /// The process-group id established at spawn time: the child's own
    /// pid, because the child is made a session/group leader.  Used only
    /// as the signal target for termination.
    group_id: u32,
    /// Cumulative output of this generation.
    output: Output,
    /// Every tagged line delivered to this generation, in order.
    history: Ghost<Seq<TaggedLine>>,
}

impl Builder {
    /// The builder's name, as characters.
    pub closed spec fn name_chars(self) -> Seq<char> {
        self.name@
    }

    /// The process-group id of the current generation.
    pub closed spec fn group(self) -> u32 {
        self.group_id
    }

    /// Every line delivered to this generation so far, in order.
    pub closed spec fn lines(self) -> Seq<TaggedLine> {
        self.history@
    }

    /// Well-formedness: the buffers hold exactly the text of the
    /// delivered lines, and the group id is a valid positive pid, small
    /// enough for its negation to be a signal target.
    pub closed spec fn wf(self) -> bool {
        &&& self.output.out@ == out_text(self.history@)
        &&& self.output.err@ == err_text(self.history@)
        &&& 1 <= self.group_id <= i32::MAX as u32
    }

    /// A fresh generation: empty buffers, no history, the given name and
    /// group id.  The host calls this right after a successful spawn,
    /// with the new child's pid as the group id.
    pub fn new(name: String, group_id: u32) -> (b: Builder)
        requires
            1 <= group_id <= i32::MAX as u32,
        ensures
            b.wf(),
            b.name_chars() == name@,
            b.group() == group_id,
            b.lines() == Seq::<TaggedLine>::empty(),
    {
        proof {
            assert(out_text(Seq::<TaggedLine>::empty()) =~= Seq::<char>::empty());
            assert(err_text(Seq::<TaggedLine>::empty()) =~= Seq::<char>::empty());
        }
        Builder { name, group_id, output: Output::new(), history: Ghost(Seq::empty()) }
    }

    /// Append the lines newly drained from the reader channel and return
    /// the full buffered history of this generation — not a delta.  This
    /// never fails: with no new lines it simply returns what is already
    /// buffered.
    pub fn drain_output(&mut self, lines: &Vec<TaggedLine>) -> (o: Output)
        requires
            old(self).wf(),
        ensures
            final(self).wf(),
            final(self).lines() == old(self).lines() + lines@,
            final(self).name_chars() == old(self).name_chars(),
            final(self).group() == old(self).group(),
            o.out@ == out_text(final(self).lines()),
            o.err@ == err_text(final(self).lines()),
    {
        self.output.append_lines(lines);
        proof {
            lemma_text_concat(self.history@, lines@);
        }
        self.history = Ghost(self.history@ + lines@);
        self.output.snapshot()
    }

    /// The target of the termination signal: the *negative* of the
    /// process-group id.  A signal sent to a negative pid reaches every
    /// process in the group, so the script's own forked descendants are
    /// terminated too — signalling the single child pid would not reach
    /// them.
    pub fn signal_target(&self) -> (t: i32)
        requires
            self.wf(),
        ensures
            t == -(self.group() as int),
            t < 0,
    {
        let g: i32 = self.group_id as i32;
        -g
    }

    /// The builder's name, for respawning the same script.
    pub fn name(&self) -> (n: &String)
        ensures
            n@ == self.name_chars(),
    {
        &self.name
    }
}

/// Draining is not destructive: a second drain that delivers no new
/// lines returns the same accumulated text as the first.
pub proof fn lemma_drain_idempotent(h: Seq<TaggedLine>, newly: Seq<TaggedLine>)
    requires
        newly.len() == 0,
    ensures
        out_text(h + newly) == out_text(h),
        err_text(h + newly) == err_text(h),
{
    lemma_text_concat(h, newly);
    assert(out_text(newly) =~= Seq::<char>::empty());
    assert(err_text(newly) =~= Seq::<char>::empty());
    assert(out_text(h) + out_text(newly) =~= out_text(h));
    assert(err_text(h) + err_text(newly) =~= err_text(h));
}

/// A redeploy clears history: a fresh generation starts with no lines,
/// so whatever it drains next is the text of the newly delivered lines
/// alone — no text of the previous generation can appear, even if that
/// generation was still flushing when it was replaced.
pub proof fn lemma_fresh_generation_output(lines: Seq<TaggedLine>)
    ensures
        out_text(Seq::<TaggedLine>::empty() + lines) == out_text(lines),
        err_text(Seq::<TaggedLine>::empty() + lines) == err_text(lines),
{
    lemma_text_concat(Seq::<TaggedLine>::empty(), lines);
    assert(out_text(Seq::<TaggedLine>::empty()) =~= Seq::<char>::empty());
    assert(err_text(Seq::<TaggedLine>::empty()) =~= Seq::<char>::empty());
    assert(out_text(Seq::<TaggedLine>::empty()) + out_text(lines) =~= out_text(lines));
    assert(err_text(Seq::<TaggedLine>::empty()) + err_text(lines) =~= err_text(lines));
}

} // verus!

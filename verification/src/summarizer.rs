//! Live progress: the last few one-line notes on what the agent does.

use vstd::prelude::*;
use crate::text;

verus! {

/// How much detail the notes carry.
#[derive(Debug, Clone, Copy, PartialEq, Eq, Structural)]
pub enum Verbosity {
    Concise,
    Detailed,
}

/// The settings of the notes.
#[derive(Debug, Clone, Copy, PartialEq, Eq, Structural)]
pub struct SummarizationConfig {
    pub verbosity: Verbosity,
    /// How many notes are kept.
    pub live_lines_cap: usize,
    /// Whether a model phrases the final answer.
    pub end_of_task_llm_summary: bool,
}

impl Default for SummarizationConfig {
    fn default() -> (r: Self)
        ensures
            r == (SummarizationConfig {
                verbosity: Verbosity::Concise,
                live_lines_cap: 5,
                end_of_task_llm_summary: true,
            }),
    {
        SummarizationConfig {
            verbosity: Verbosity::Concise,
            live_lines_cap: 5,
            end_of_task_llm_summary: true,
        }
    }
}

/// One note.
#[derive(Debug, PartialEq, Eq)]
pub struct ProgressLine {
    pub kind: String,
    pub text: String,
    pub timestamp_secs: u64,
    pub success: bool,
}

impl Clone for ProgressLine {
    fn clone(&self) -> (r: Self)
        ensures
            r == *self,
    {
        ProgressLine {
            kind: self.kind.clone(),
            text: self.text.clone(),
            timestamp_secs: self.timestamp_secs,
            success: self.success,
        }
    }
}

/// The last `cap` notes, and how many there were in all.
#[derive(Debug)]
pub struct LiveProgress {
    pub lines: Vec<ProgressLine>,
    pub cap: usize,
    pub total: u64,
}

/// The last `n` items of a sequence.
pub open spec fn last_of<T>(s: Seq<T>, n: nat) -> Seq<T> {
    if s.len() <= n {
        s
    } else {
        s.subrange(s.len() - n, s.len() as int)
    }
}

impl LiveProgress {
    pub open spec fn wf(self) -> bool {
        self.lines@.len() <= self.cap
    }

    pub fn new(cap: usize) -> (r: Self)
        ensures
            r.wf(),
            r.lines@ == Seq::<ProgressLine>::empty(),
            r.cap == cap,
            r.total == 0,
    {
        LiveProgress { lines: Vec::new(), cap, total: 0 }
    }

    /// Adds a note; the oldest one leaves where there would be too many.
    pub fn push(&mut self, line: ProgressLine)
        requires
            old(self).wf(),
            old(self).total < u64::MAX,
        ensures
            final(self).wf(),
            final(self).cap == old(self).cap,
            final(self).total == old(self).total + 1,
            final(self).lines@ == last_of(old(self).lines@.push(line), old(self).cap as nat),
    {
        let ghost all = self.lines@.push(line);
        self.total = self.total + 1;
        if self.lines.len() < self.cap {
            self.lines.push(line);
        } else if self.cap > 0 {
            self.lines.remove(0);
            self.lines.push(line);
            assert(self.lines@ == all.subrange(1, all.len() as int));
        } else {
            assert(self.lines@ == all.subrange(all.len() as int, all.len() as int));
        }
    }

    /// The notes, oldest first.
    pub fn snapshot(&self) -> (r: Vec<ProgressLine>)
        ensures
            r@ == self.lines@,
    {
        let mut out: Vec<ProgressLine> = Vec::new();
        let mut i: usize = 0;
        while i < self.lines.len()
            invariant
                i <= self.lines@.len(),
                out@ == self.lines@.take(i as int),
            decreases self.lines@.len() - i,
        {
            out.push(self.lines[i].clone());
            i += 1;
            assert(self.lines@.take(i as int) == self.lines@.take(i - 1).push(self.lines@[i - 1]));
        }
        assert(self.lines@.take(self.lines@.len() as int) == self.lines@);
        out
    }
}

// ---------------------------------------------------------------------------
// Laws
// ---------------------------------------------------------------------------

/// The last lines of a list are its end: no more than there is room for, in their order,
/// and all of them where there is room.
pub proof fn law_the_last_lines_are_kept<T>(s: Seq<T>, n: nat)
    ensures
        last_of(s, n).is_suffix_of(s),
        last_of(s, n).len() == if s.len() < n {
            s.len()
        } else {
            n
        },
        s.len() <= n ==> last_of(s, n) == s,
        s.len() > 0 && n > 0 ==> last_of(s, n).last() == s.last(),
{
    assert(s.subrange(0, s.len() as int) =~= s);
}

} // verus!

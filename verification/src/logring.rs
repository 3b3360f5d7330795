//! A bounded log of the most recent diagnostic lines. Pushing onto a full
//! buffer evicts the oldest line, so at most `MAX_LOG_ENTRIES` are kept.
//! Formatting the lines and flushing them to disk happens outside the
//! library.

use vstd::prelude::*;
use vstd::string::StringExecFns;

verus! {

/// How many log lines are kept.
pub const MAX_LOG_ENTRIES: usize = 50;

/// The ring of recent log lines, oldest first.
#[derive(Debug)]
pub struct LogRingBuffer {
    pub entries: Vec<String>,
}

impl LogRingBuffer {
    /// The buffer never holds more than `MAX_LOG_ENTRIES` lines.
    pub open spec fn wf(self) -> bool {
        self.entries@.len() <= MAX_LOG_ENTRIES
    }

    /// An empty buffer.
    pub fn new() -> (r: Self)
        ensures
            r.wf(),
            r.entries@.len() == 0,
    {
        LogRingBuffer { entries: Vec::new() }
    }

    /// Append one line; on a full buffer the oldest line leaves first, so
    /// the newest `MAX_LOG_ENTRIES` lines survive.
    pub fn push(&mut self, entry: String)
        requires
            old(self).wf(),
        ensures
            final(self).wf(),
            old(self).entries@.len() < MAX_LOG_ENTRIES ==> final(self).entries@ == old(
                self,
            ).entries@.push(entry),
            old(self).entries@.len() >= MAX_LOG_ENTRIES ==> final(self).entries@ == old(
                self,
            ).entries@.subrange(1, old(self).entries@.len() as int).push(entry),
    {
        if self.entries.len() >= MAX_LOG_ENTRIES {
            self.entries.remove(0);
            proof {
                assert(self.entries@ =~= old(self).entries@.subrange(
                    1,
                    old(self).entries@.len() as int,
                ));
            }
        }
        self.entries.push(entry);
    }

    /// How many lines are held.
    pub fn len(&self) -> (n: usize)
        ensures
            n == self.entries@.len(),
    {
        self.entries.len()
    }
}

/// The flushed form of the log: the lines joined by single newlines, oldest
/// first.
pub open spec fn log_text(entries: Seq<String>, n: int) -> Seq<char>
    decreases n,
{
    if n <= 0 {
        Seq::empty()
    } else if n == 1 {
        entries[0]@
    } else {
        log_text(entries, n - 1) + "\n"@ + entries[n - 1]@
    }
}

impl LogRingBuffer {
    /// Render the whole buffer for flushing to disk.
    pub fn render(&self) -> (s: String)
        ensures
            s@ == log_text(self.entries@, self.entries@.len() as int),
    {
        let mut s = String::new();
        let mut i: usize = 0;
        while i < self.entries.len()
            invariant
                i <= self.entries@.len(),
                s@ == log_text(self.entries@, i as int),
            decreases self.entries@.len() - i,
        {
            if i > 0 {
                s.append("\n");
            }
            s.append(self.entries[i].as_str());
            proof {
                if i == 0 {
                    assert(s@ =~= log_text(self.entries@, 1));
                }
            }
            i = i + 1;
        }
        s
    }
}

} // verus!

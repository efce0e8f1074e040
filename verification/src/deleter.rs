//! Delete-side logic: the event type of the delete worker, the verified
//! accounting of a deletion batch — bytes freed and per-path errors — and
//! the shape of the worker's event stream.

use vstd::prelude::*;

use crate::text::{chars_to_string, str_to_chars};

verus! {

/// A message sent from the delete worker to the coordination thread.
pub enum DeleteMsg {
    /// Sent immediately before a directory is removed, carrying its path.
    Progress(String),
    /// Sent once, after every path has been processed: the total bytes
    /// successfully reclaimed and one message per path that failed.
    Done { freed: u64, errors: Vec<String> },
}

/// `x` clamped into a `u64`.
pub open spec fn sat_u64(x: int) -> u64 {
    if x >= u64::MAX {
        u64::MAX
    } else if x <= 0 {
        0u64
    } else {
        x as u64
    }
}

// ─── The outcome log ──────────────────────────────────────────────────────────

/// What happened to one path of a deletion batch.
pub ghost enum DeleteOutcome {
    /// The subtree was removed; its measured size joins the freed total.
    Removed { size: u64 },
    /// The remove failed; one message joins the error list.
    Failed { message: Seq<char> },
}

/// Combined size of the successfully removed paths.
pub open spec fn spec_freed_total(log: Seq<DeleteOutcome>) -> int
    decreases log.len(),
{
    if log.len() == 0 {
        0
    } else {
        spec_freed_total(log.drop_last()) + match log.last() {
            DeleteOutcome::Removed { size } => size as int,
            DeleteOutcome::Failed { .. } => 0int,
        }
    }
}

/// The messages of the failed paths, in order.
pub open spec fn spec_failure_messages(log: Seq<DeleteOutcome>) -> Seq<Seq<char>>
    decreases log.len(),
{
    if log.len() == 0 {
        Seq::empty()
    } else {
        spec_failure_messages(log.drop_last()) + match log.last() {
            DeleteOutcome::Removed { .. } => Seq::<Seq<char>>::empty(),
            DeleteOutcome::Failed { message } => seq![message],
        }
    }
}

/// How many paths were successfully removed.
pub open spec fn spec_success_count(log: Seq<DeleteOutcome>) -> int
    decreases log.len(),
{
    if log.len() == 0 {
        0
    } else {
        spec_success_count(log.drop_last()) + match log.last() {
            DeleteOutcome::Removed { .. } => 1int,
            DeleteOutcome::Failed { .. } => 0int,
        }
    }
}

/// The freed total is never negative.
pub proof fn lemma_freed_total_nonneg(log: Seq<DeleteOutcome>)
    ensures
        spec_freed_total(log) >= 0,
    decreases log.len(),
{
    if log.len() > 0 {
        lemma_freed_total_nonneg(log.drop_last());
    }
}

/// Every outcome lands in exactly one column: the successes and the error
/// messages together account for the whole log.
pub proof fn lemma_log_partition(log: Seq<DeleteOutcome>)
    ensures
        spec_success_count(log) + spec_failure_messages(log).len() == log.len(),
        spec_success_count(log) >= 0,
    decreases log.len(),
{
    if log.len() > 0 {
        lemma_log_partition(log.drop_last());
    }
}

// ─── The running batch ────────────────────────────────────────────────────────

/// The running totals of one deletion batch, owned by the delete worker.
///
/// The worker measures and removes each path itself; after each attempt it
/// records the outcome here. The log ties the visible totals to the
/// recorded outcomes: the freed bytes are the combined size of the
/// successes (saturating), and the error list holds exactly the failures'
/// messages, in order.
pub struct DeleteBatch {
    /// Bytes freed so far, saturating at the top of the range.
    pub freed: u64,
    /// One human-readable message per failed path, in order.
    pub errors: Vec<String>,
    /// How many outcomes have been recorded.
    pub recorded: usize,
    /// How many of them succeeded.
    pub succeeded: usize,
    /// The recorded outcomes.
    pub log: Ghost<Seq<DeleteOutcome>>,
}

impl DeleteBatch {
    /// The visible totals match the recorded outcomes.
    pub open spec fn wf(self) -> bool {
        &&& self.freed == sat_u64(spec_freed_total(self.log@))
        &&& self.errors@.map_values(|s: String| s@) == spec_failure_messages(self.log@)
        &&& self.recorded == self.log@.len()
        &&& self.succeeded == spec_success_count(self.log@)
    }

    /// A fresh batch: all counters zero, no errors, nothing recorded.
    pub fn new() -> (r: DeleteBatch)
        ensures
            r.freed == 0,
            r.errors@.len() == 0,
            r.recorded == 0,
            r.succeeded == 0,
            r.log@ == Seq::<DeleteOutcome>::empty(),
            r.wf(),
    {
        let r = DeleteBatch {
            freed: 0,
            errors: Vec::new(),
            recorded: 0,
            succeeded: 0,
            log: Ghost(Seq::empty()),
        };
        proof {
            assert(r.errors@.map_values(|s: String| s@) =~= spec_failure_messages(r.log@));
        }
        r
    }

    /// Records one successfully removed path of the given measured size.
    /// The freed total grows by exactly that size (saturating); the error
    /// list is untouched.
    pub fn record_success(&mut self, size: u64)
        requires
            old(self).recorded < usize::MAX,
            old(self).wf(),
        ensures
            final(self).freed == sat_u64(old(self).freed + size),
            final(self).errors == old(self).errors,
            final(self).recorded == old(self).recorded + 1,
            final(self).succeeded == old(self).succeeded + 1,
            final(self).log@ == old(self).log@.push(DeleteOutcome::Removed { size }),
            final(self).wf(),
    {
        proof {
            let log2 = self.log@.push(DeleteOutcome::Removed { size });
            assert(log2.drop_last() =~= self.log@);
            lemma_freed_total_nonneg(self.log@);
            lemma_log_partition(self.log@);
            assert(self.errors@.map_values(|s: String| s@) =~= spec_failure_messages(log2));
        }
        if self.freed > u64::MAX - size {
            self.freed = u64::MAX;
        } else {
            self.freed = self.freed + size;
        }
        self.recorded = self.recorded + 1;
        self.succeeded = self.succeeded + 1;
        proof {
            self.log@ = self.log@.push(DeleteOutcome::Removed { size });
        }
    }

    /// Records one failed path with its message. The freed total is
    /// untouched; the message is appended to the error list.
    pub fn record_failure(&mut self, message: String)
        requires
            old(self).recorded < usize::MAX,
            old(self).wf(),
        ensures
            final(self).freed == old(self).freed,
            final(self).errors@ == old(self).errors@.push(message),
            final(self).recorded == old(self).recorded + 1,
            final(self).succeeded == old(self).succeeded,
            final(self).log@ == old(self).log@.push(
                DeleteOutcome::Failed { message: message@ },
            ),
            final(self).wf(),
    {
        proof {
            let log2 = self.log@.push(DeleteOutcome::Failed { message: message@ });
            assert(log2.drop_last() =~= self.log@);
            assert(self.errors@.push(message).map_values(|s: String| s@) =~= spec_failure_messages(
                log2,
            ));
        }
        self.errors.push(message);
        self.recorded = self.recorded + 1;
        proof {
            self.log@ = self.log@.push(DeleteOutcome::Failed { message: message@ });
        }
    }

    /// The terminal event of the batch, carrying the final totals.
    pub fn into_done_msg(self) -> (r: DeleteMsg)
        ensures
            r == (DeleteMsg::Done { freed: self.freed, errors: self.errors }),
    {
        DeleteMsg::Done { freed: self.freed, errors: self.errors }
    }
}

/// Freed bytes never exceed the combined size of the successfully removed
/// paths, and every recorded path is accounted for in exactly one place:
/// its size joins the freed total, or one message joins the error list —
/// never both, never neither.
pub proof fn lemma_batch_accounting(b: DeleteBatch)
    requires
        b.wf(),
    ensures
        b.freed as int <= spec_freed_total(b.log@),
        b.succeeded + b.errors@.len() == b.log@.len(),
{
    lemma_freed_total_nonneg(b.log@);
    lemma_log_partition(b.log@);
}

// ─── The worker's event stream ────────────────────────────────────────────────

/// The message recorded for a failed path: the path, a separator, and the
/// reason the remove gave.
pub fn delete_error_message(path: &str, reason: &str) -> (r: String)
    ensures
        r@ == path@ + ": "@ + reason@,
{
    let mut v = str_to_chars(path);
    let mut sep = str_to_chars(": ");
    let mut rest = str_to_chars(reason);
    v.append(&mut sep);
    v.append(&mut rest);
    chars_to_string(&v)
}

/// One path's outcome as the worker saw it: the size measured before the
/// remove, and the message when the remove failed.
pub struct PathOutcome {
    pub path: String,
    pub size: u64,
    pub error: Option<String>,
}

/// The outcome log the given per-path outcomes produce.
pub open spec fn spec_outcome_log(outs: Seq<PathOutcome>) -> Seq<DeleteOutcome>
    decreases outs.len(),
{
    if outs.len() == 0 {
        Seq::empty()
    } else {
        spec_outcome_log(outs.drop_last()).push(
            match outs.last().error {
                None => DeleteOutcome::Removed { size: outs.last().size },
                Some(m) => DeleteOutcome::Failed { message: m@ },
            },
        )
    }
}

/// The event stream of one delete run with the given per-path outcomes: one
/// progress event naming each path, in order and before its removal is
/// attempted, then exactly one terminal report carrying the freed total of
/// the successes and the failures' messages, in order.
pub fn delete_run_events(outcomes: Vec<PathOutcome>) -> (r: Vec<DeleteMsg>)
    ensures
        r@.len() == outcomes@.len() + 1,
        forall|k: int|
            0 <= k < outcomes@.len() ==> ((#[trigger] r@[k]) matches DeleteMsg::Progress(p) && p@
                == outcomes@[k].path@),
        r@.last() matches DeleteMsg::Done { freed, errors } && freed == sat_u64(
            spec_freed_total(spec_outcome_log(outcomes@)),
        ) && errors@.map_values(|s: String| s@) == spec_failure_messages(
            spec_outcome_log(outcomes@),
        ),
{
    let ghost outs = outcomes@;
    let mut r: Vec<DeleteMsg> = Vec::new();
    let mut batch = DeleteBatch::new();
    let n = outcomes.len();
    let mut i: usize = 0;
    proof {
        assert(spec_outcome_log(outs.take(0)) =~= Seq::<DeleteOutcome>::empty());
    }
    while i < n
        invariant
            i <= n,
            n == outs.len(),
            outcomes@ == outs,
            r@.len() == i,
            forall|k: int|
                0 <= k < i ==> ((#[trigger] r@[k]) matches DeleteMsg::Progress(p) && p@
                    == outs[k].path@),
            batch.wf(),
            batch.recorded == i,
            batch.log@ == spec_outcome_log(outs.take(i as int)),
        decreases n - i,
    {
        proof {
            assert(outs.take(i + 1).drop_last() =~= outs.take(i as int));
            assert(outs.take(i + 1).last() == outs[i as int]);
        }
        let item = &outcomes[i];
        r.push(DeleteMsg::Progress(item.path.clone()));
        match &item.error {
            None => {
                batch.record_success(item.size);
            },
            Some(m) => {
                batch.record_failure(m.clone());
            },
        }
        i = i + 1;
    }
    proof {
        assert(outs.take(outs.len() as int) =~= outs);
    }
    r.push(batch.into_done_msg());
    r
}

} // verus!

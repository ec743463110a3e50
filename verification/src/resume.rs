//! Resume-safety rules for the checkpointed log reader.
//!
//! On startup the driver resumes from a persisted checkpoint, or from a
//! default position derived from the log's head. A requested resume point
//! must sit at least a safety margin behind the head, else unread history
//! could be skipped silently; such a configuration is refused before any
//! processing begins.

use vstd::prelude::*;

verus! {

/// Whether resuming at `resume` is safe against a log whose newest entry has
/// height `head`: the resume point must be at least `margin` behind the head.
pub open spec fn resume_is_safe(head: u64, resume: u64, margin: u64) -> bool {
    resume + margin <= head
}

/// Decides whether the pipeline may start from `resume`.
pub fn resume_allowed(head: u64, resume: u64, margin: u64) -> (r: bool)
    ensures
        r == resume_is_safe(head, resume, margin),
{
    resume <= head && head - resume >= margin
}

/// The default resume position when no checkpoint is persisted: the farthest
/// point that still clears the safety margin behind the head.
pub fn default_resume_height(head: u64, margin: u64) -> (r: u64)
    requires
        margin <= head,
    ensures
        r == head - margin,
        resume_is_safe(head, r, margin),
{
    head - margin
}

/// The height the pipeline should resume from: the persisted checkpoint when
/// one exists, else the default derived from the log head; `None` when the
/// chosen point is not safely behind the head.
pub fn initial_resume_height(checkpoint: Option<u64>, head: u64, margin: u64) -> (r: Option<
    u64,
>)
    requires
        margin <= head,
    ensures
        match r {
            Some(h) => {
                &&& h == (match checkpoint {
                    Some(c) => c,
                    None => (head - margin) as u64,
                })
                &&& resume_is_safe(head, h, margin)
            },
            None => (checkpoint matches Some(c) && !resume_is_safe(head, c, margin)),
        },
{
    let start = match checkpoint {
        Some(c) => c,
        None => default_resume_height(head, margin),
    };
    if resume_allowed(head, start, margin) {
        Some(start)
    } else {
        None
    }
}

} // verus!

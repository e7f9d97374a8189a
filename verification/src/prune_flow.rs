use vstd::prelude::*;

use crate::flow::{Action, Event, LogLevel, Step, note_views, quiet, with_note};
use crate::monitor_flow::returns_err;

verus! {

/// Where a pruning run stands.
#[derive(Clone, Copy, Debug, PartialEq, Eq, Structural)]
pub enum PruneStage {
    /// Nothing has happened yet.
    Start,
    /// Waiting for the detect history to be pruned.
    PruningDetectHistory,
    /// Waiting for the update history to be pruned.
    PruningUpdateHistory,
    /// Waiting for the log to be sent; afterwards the run ends with that result.
    Finishing,
    /// The run is over.
    Done,
}

/// The event answers the work that the stage waits for.
pub open spec fn prune_accepts(stage: PruneStage, event: Event) -> bool {
    match stage {
        PruneStage::Start => event is Begin,
        PruneStage::Done => false,
        _ => event is Completed,
    }
}

/// Whether `event` answers the work that `stage` waits for.
pub fn prune_accepts_event(stage: PruneStage, event: &Event) -> (ok: bool)
    ensures
        ok == prune_accepts(stage, *event),
{
    match stage {
        PruneStage::Start => matches!(event, Event::Begin),
        PruneStage::Done => false,
        _ => matches!(event, Event::Completed(_)),
    }
}

/// The step that a pruning run takes from `stage` on `event`.
///
/// The run prunes the detect history, then the update history, then sends the
/// log. A failed step ends the run with its error, after a note.
pub fn prune_step(stage: PruneStage, event: Event) -> (result: (PruneStage, Step))
    requires
        prune_accepts(stage, event),
    ensures
        ({
            let (next, step) = result;
            match stage {
                PruneStage::Start => next == PruneStage::PruningDetectHistory
                    && step.action is PruneDetectHistory
                    && note_views(step.notes@) == seq![(LogLevel::Info, "prune"@, "prune処理実行開始"@)],
                PruneStage::PruningDetectHistory => match event {
                    Event::Completed(Err(e)) => next == PruneStage::Done && returns_err(step.action, e@)
                        && note_views(step.notes@) == seq![(LogLevel::Error, "prune"@, "detect_historyの圧縮失敗"@)],
                    _ => next == PruneStage::PruningUpdateHistory && step.action is PruneUpdateHistory
                        && step.notes@.len() == 0,
                },
                PruneStage::PruningUpdateHistory => match event {
                    Event::Completed(Err(e)) => next == PruneStage::Done && returns_err(step.action, e@)
                        && note_views(step.notes@) == seq![(LogLevel::Error, "prune"@, "update_historyの圧縮失敗"@)],
                    _ => next == PruneStage::Finishing && step.action is Finish
                        && note_views(step.notes@) == seq![(LogLevel::Info, "prune"@, "prune処理実行完了"@)],
                },
                PruneStage::Finishing => next == PruneStage::Done && step.notes@.len() == 0 && match event {
                    Event::Completed(Err(e)) => returns_err(step.action, e@),
                    _ => step.action matches Action::Return(Ok(())),
                },
                PruneStage::Done => false,
            }
        }),
{
    match stage {
        PruneStage::Start => (
            PruneStage::PruningDetectHistory,
            with_note(LogLevel::Info, "prune", "prune処理実行開始", Action::PruneDetectHistory),
        ),
        PruneStage::PruningDetectHistory => match event {
            Event::Completed(Err(e)) => (
                PruneStage::Done,
                with_note(LogLevel::Error, "prune", "detect_historyの圧縮失敗", Action::Return(Err(e))),
            ),
            _ => (PruneStage::PruningUpdateHistory, quiet(Action::PruneUpdateHistory)),
        },
        PruneStage::PruningUpdateHistory => match event {
            Event::Completed(Err(e)) => (
                PruneStage::Done,
                with_note(LogLevel::Error, "prune", "update_historyの圧縮失敗", Action::Return(Err(e))),
            ),
            _ => (
                PruneStage::Finishing,
                with_note(LogLevel::Info, "prune", "prune処理実行完了", Action::Finish),
            ),
        },
        PruneStage::Finishing => match event {
            Event::Completed(Err(e)) => (PruneStage::Done, quiet(Action::Return(Err(e)))),
            _ => (PruneStage::Done, quiet(Action::Return(Ok(())))),
        },
        PruneStage::Done => (PruneStage::Done, quiet(Action::Return(Ok(())))),
    }
}

} // verus!

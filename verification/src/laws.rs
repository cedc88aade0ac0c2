//! What holds of every run.

use vstd::prelude::*;
use crate::notice::{NoticeView, OutcomeView};
use crate::paths::{spec_is_pdf, spec_join};
use crate::session::{
    lemma_pdf_names_are_pdf, pdf_names, spec_advance, spec_exit, spec_program, spec_start, Phase,
    ReplyView, RequestView, SessionView, StepView,
};

verus! {

/// A command line that does not hold exactly one argument ends the run at
/// once: the usage line on the error stream, then exit code 1.
pub proof fn lemma_wrong_argument_count_ends_run(args: Seq<Seq<char>>)
    requires
        args.len() != 2,
    ensures
        spec_start(args).0.phase == Phase::Finished,
        spec_start(args).1 == spec_exit(
            seq![NoticeView::Usage { program: spec_program(args) }],
            1,
        ),
        spec_start(args).1.notices[0].is_error(),
{
}

/// With one argument the first thing asked for is the probe of the tool,
/// before any directory is looked at; when the tool is not available the run
/// ends with one error line and exit code 1.
pub proof fn lemma_missing_tool_ends_run(args: Seq<Seq<char>>)
    requires
        args.len() == 2,
    ensures
        spec_start(args).1 == (StepView { notices: seq![], request: RequestView::ProbeTool }),
        spec_advance(spec_start(args).0, ReplyView::ToolProbed { available: false }) matches Some(
            (after, step),
        ) && after.phase == Phase::Finished && step == spec_exit(
            seq![NoticeView::ToolMissing],
            1,
        ),
{
}

/// With the tool available, the directory `locked` under the base directory
/// is checked next; when it is no directory the run ends with one error line
/// that names it, and exit code 1.
pub proof fn lemma_missing_source_ends_run(args: Seq<Seq<char>>)
    requires
        args.len() == 2,
    ensures
        ({
            let locked = spec_join(args[1], "locked"@);
            let probe = spec_advance(spec_start(args).0, ReplyView::ToolProbed { available: true });
            let (probed, step) = probe->0;
            let check = spec_advance(probed, ReplyView::LockedChecked { is_directory: false });
            let (after, last) = check->0;
            &&& probe is Some
            &&& step == (StepView {
                notices: seq![],
                request: RequestView::CheckLocked { path: locked },
            })
            &&& check is Some
            &&& after.phase == Phase::Finished
            &&& last == spec_exit(seq![NoticeView::LockedMissing { path: locked }], 1)
        }),
{
}

/// The queue of a run holds a name exactly when the listing holds it and it
/// is a PDF file.
pub proof fn lemma_queue_holds_the_pdf_files(names: Seq<Seq<char>>, name: Seq<char>)
    ensures
        pdf_names(names).contains(name) <==> names.contains(name) && spec_is_pdf(name),
    decreases names.len(),
{
    if names.len() > 0 {
        let front = names.drop_last();
        let rest = pdf_names(front);
        lemma_queue_holds_the_pdf_files(front, name);
        if pdf_names(names).contains(name) {
            let i = choose|i: int| 0 <= i < pdf_names(names).len() && pdf_names(names)[i] == name;
            if i < rest.len() {
                assert(rest.contains(name));
                let j = choose|j: int| 0 <= j < front.len() && front[j] == name;
                assert(names[j] == name);
            } else {
                assert(names.last() == name);
            }
        }
        if names.contains(name) && spec_is_pdf(name) {
            let j = choose|j: int| 0 <= j < names.len() && names[j] == name;
            if j < front.len() {
                assert(front[j] == name);
                let i = choose|i: int| 0 <= i < rest.len() && rest[i] == name;
                assert(pdf_names(names)[i] == name);
            } else {
                assert(pdf_names(names)[rest.len() as int] == name);
            }
        }
    }
}

/// How far a run has come.
pub open spec fn rank(phase: Phase) -> int {
    match phase {
        Phase::Probing => 0,
        Phase::CheckingLocked => 1,
        Phase::CheckingUnlocked => 2,
        Phase::Creating => 3,
        Phase::Listing => 4,
        Phase::Unlocking => 5,
        Phase::Finished => 6,
    }
}

/// A run only moves forward: each answer takes it to a later phase, or to
/// the next file while the tool is at work. No phase is entered twice, and a
/// run is over after finitely many answers.
pub proof fn lemma_run_moves_forward(s: SessionView, reply: ReplyView)
    requires
        spec_advance(s, reply) is Some,
    ensures
        ({
            let (t, step) = spec_advance(s, reply)->0;
            &&& rank(s.phase) < rank(t.phase) || (s.phase == Phase::Unlocking && t.phase
                == Phase::Unlocking && t.cursor == s.cursor + 1 && t.queue == s.queue)
            &&& (step.request is Exit) == (t.phase == Phase::Finished)
        }),
{
}

/// Whether `reply` reports that the run cannot go on: the tool is missing,
/// the source directory is missing, or the destination directory or the
/// listing could not be made.
pub open spec fn is_refusal(reply: ReplyView) -> bool {
    match reply {
        ReplyView::ToolProbed { available } => !available,
        ReplyView::LockedChecked { is_directory } => !is_directory,
        ReplyView::CreateFailed { .. } => true,
        ReplyView::ListFailed { .. } => true,
        _ => false,
    }
}

/// A refusal ends the run at once with one error line and exit code 1. No
/// other answer ends it with a code other than 0: what the tool reports on a
/// file never counts against the run.
pub proof fn lemma_exit_code_tells_refusal(s: SessionView, reply: ReplyView)
    requires
        spec_advance(s, reply) is Some,
    ensures
        ({
            let (t, step) = spec_advance(s, reply)->0;
            if is_refusal(reply) {
                &&& step.request == (RequestView::Exit { code: 1 })
                &&& step.notices.len() == 1
                &&& step.notices[0].is_error()
            } else {
                step.request is Exit ==> step.request == (RequestView::Exit { code: 0 })
            }
        }),
{
}

/// The confirmation that the destination directory was created is printed
/// by one step only: the one that takes the answer to its creation. With
/// [`lemma_run_moves_forward`], a run prints it at most once, and once when
/// the directory was missing and could be created.
pub proof fn lemma_confirmation_follows_creation(s: SessionView, reply: ReplyView, i: int)
    requires
        spec_advance(s, reply) matches Some((_, step)) && 0 <= i < step.notices.len()
            && step.notices[i] is CreatedUnlocked,
    ensures
        s.phase == Phase::Creating,
        reply is Created,
        spec_advance(s, reply) matches Some((t, step)) && t.phase == Phase::Listing
            && step.notices == seq![NoticeView::CreatedUnlocked { path: s.unlocked }],
{
}

/// The steps that a session hands out when it is given `replies` one after
/// the other. A reply that answers nothing gives no step.
pub open spec fn spec_run(s: SessionView, replies: Seq<ReplyView>) -> Seq<StepView>
    decreases replies.len(),
{
    if replies.len() == 0 {
        seq![]
    } else {
        let later = replies.subrange(1, replies.len() as int);
        match spec_advance(s, replies[0]) {
            Some((t, step)) => seq![step] + spec_run(t, later),
            None => spec_run(s, later),
        }
    }
}

/// Whether `step` prints the confirmation that the destination directory
/// was created.
pub open spec fn confirms_creation(step: StepView) -> bool {
    exists|i: int| 0 <= i < step.notices.len() && (#[trigger] step.notices[i]) is CreatedUnlocked
}

/// Once the destination directory is there, no step confirms its creation.
pub proof fn lemma_no_confirmation_after_creation(s: SessionView, replies: Seq<ReplyView>)
    requires
        rank(s.phase) > rank(Phase::Creating),
    ensures
        forall|k: int|
            0 <= k < spec_run(s, replies).len() ==> !confirms_creation(
                #[trigger] spec_run(s, replies)[k],
            ),
    decreases replies.len(),
{
    if replies.len() > 0 {
        let later = replies.subrange(1, replies.len() as int);
        match spec_advance(s, replies[0]) {
            Some((t, step)) => {
                lemma_run_moves_forward(s, replies[0]);
                lemma_no_confirmation_after_creation(t, later);
                if confirms_creation(step) {
                    let i = choose|i: int|
                        0 <= i < step.notices.len() && (
                        #[trigger] step.notices[i]) is CreatedUnlocked;
                    lemma_confirmation_follows_creation(s, replies[0], i);
                }
                assert forall|k: int|
                    0 <= k < spec_run(s, replies).len() implies !confirms_creation(
                    #[trigger] spec_run(s, replies)[k],
                ) by {
                    if k > 0 {
                        assert(spec_run(s, replies)[k] == spec_run(t, later)[k - 1]);
                    }
                }
            },
            None => {
                lemma_no_confirmation_after_creation(s, later);
                assert(spec_run(s, replies) == spec_run(s, later));
            },
        }
    }
}

/// Whatever the answers, a run confirms the creation of the destination
/// directory in at most one of its steps.
pub proof fn lemma_creation_is_confirmed_once(
    s: SessionView,
    replies: Seq<ReplyView>,
    i: int,
    j: int,
)
    requires
        0 <= i < j < spec_run(s, replies).len(),
    ensures
        !(confirms_creation(spec_run(s, replies)[i]) && confirms_creation(
            spec_run(s, replies)[j],
        )),
    decreases replies.len(),
{
    if replies.len() > 0 {
        let later = replies.subrange(1, replies.len() as int);
        match spec_advance(s, replies[0]) {
            Some((t, step)) => {
                assert(spec_run(s, replies)[j] == spec_run(t, later)[j - 1]);
                if i == 0 {
                    assert(spec_run(s, replies)[0] == step);
                    if confirms_creation(step) {
                        let n = choose|n: int|
                            0 <= n < step.notices.len() && (
                            #[trigger] step.notices[n]) is CreatedUnlocked;
                        lemma_confirmation_follows_creation(s, replies[0], n);
                        lemma_no_confirmation_after_creation(t, later);
                    }
                } else {
                    assert(spec_run(s, replies)[i] == spec_run(t, later)[i - 1]);
                    lemma_creation_is_confirmed_once(t, later, i - 1, j - 1);
                }
            },
            None => {
                lemma_creation_is_confirmed_once(s, later, i, j);
            },
        }
    }
}

/// The answers of a tool that reports `outcomes`, one for each file.
pub open spec fn decrypted(outcomes: Seq<OutcomeView>) -> Seq<ReplyView> {
    Seq::new(outcomes.len(), |i: int| ReplyView::Decrypted { outcome: outcomes[i] })
}

/// What is asked for after file `k` of the rest of the queue: the next
/// file, or exit code 0 after the last.
pub open spec fn spec_request_after(s: SessionView, k: int) -> RequestView {
    let next = s.cursor + k + 1;
    if next < s.queue.len() {
        RequestView::Decrypt { source: s.source(next), destination: s.destination(next) }
    } else {
        RequestView::Exit { code: 0 }
    }
}

/// One file's failure never stops the batch: whatever the tool reports on
/// each file, every queued file is asked for in turn, each with the
/// destination of its own name, and the run ends with exit code 0.
pub proof fn lemma_batch_runs_to_the_end(s: SessionView, outcomes: Seq<OutcomeView>)
    requires
        s.wf(),
        s.phase == Phase::Unlocking,
        outcomes.len() == s.queue.len() - s.cursor,
    ensures
        spec_run(s, decrypted(outcomes)).len() == outcomes.len(),
        forall|k: int|
            0 <= k < outcomes.len() ==> (#[trigger] spec_run(s, decrypted(outcomes))[k]).request
                == spec_request_after(s, k),
        spec_run(s, decrypted(outcomes)).last().request == (RequestView::Exit { code: 0 }),
    decreases outcomes.len(),
{
    let replies = decrypted(outcomes);
    let (t, step) = spec_advance(s, replies[0])->0;
    let later = outcomes.subrange(1, outcomes.len() as int);
    let rest = spec_run(t, decrypted(later));
    assert(replies.subrange(1, replies.len() as int) =~= decrypted(later));
    assert(spec_run(s, replies) == seq![step] + rest);
    if outcomes.len() > 1 {
        lemma_batch_runs_to_the_end(t, later);
        assert forall|k: int| 0 <= k < outcomes.len() implies (#[trigger] spec_run(
            s,
            replies,
        )[k]).request == spec_request_after(s, k) by {
            if k > 0 {
                assert(spec_run(s, replies)[k] == rest[k - 1]);
                assert(spec_request_after(t, k - 1) == spec_request_after(s, k));
            }
        }
    }
}

/// Two runs over the same queue ask for the same files and end alike,
/// though the tool may report differently in each.
pub proof fn lemma_requests_ignore_outcomes(
    s: SessionView,
    first: Seq<OutcomeView>,
    second: Seq<OutcomeView>,
)
    requires
        s.wf(),
        s.phase == Phase::Unlocking,
        first.len() == s.queue.len() - s.cursor,
        second.len() == first.len(),
    ensures
        spec_run(s, decrypted(first)).len() == spec_run(s, decrypted(second)).len(),
        forall|k: int|
            0 <= k < first.len() ==> spec_run(s, decrypted(first))[k].request == spec_run(
                s,
                decrypted(second),
            )[k].request,
{
    lemma_batch_runs_to_the_end(s, first);
    lemma_batch_runs_to_the_end(s, second);
}

/// The listing alone decides what a run asks of the tool: each PDF file of
/// the listing, in listing order, is read under the source directory and
/// written under its own name to the destination directory, whatever the
/// tool reports, and the run then ends with exit code 0. So a second run
/// over the same listing writes the same files.
pub proof fn lemma_listing_decides_the_run(
    s: SessionView,
    names: Seq<Seq<char>>,
    outcomes: Seq<OutcomeView>,
)
    requires
        s.phase == Phase::Listing,
        outcomes.len() == pdf_names(names).len(),
    ensures
        ({
            let run = spec_run(s, seq![ReplyView::Listed { names }] + decrypted(outcomes));
            &&& run.len() == outcomes.len() + 1
            &&& forall|k: int|
                0 <= k < outcomes.len() ==> (#[trigger] run[k]).request == (RequestView::Decrypt {
                    source: spec_join(s.locked, pdf_names(names)[k]),
                    destination: spec_join(s.unlocked, pdf_names(names)[k]),
                })
            &&& run.last().request == (RequestView::Exit { code: 0 })
        }),
{
    let replies = seq![ReplyView::Listed { names }] + decrypted(outcomes);
    let run = spec_run(s, replies);
    let (t, step) = spec_advance(s, replies[0])->0;
    let rest = spec_run(t, decrypted(outcomes));
    assert(replies.subrange(1, replies.len() as int) =~= decrypted(outcomes));
    assert(run == seq![step] + rest);
    lemma_pdf_names_are_pdf(names);
    if outcomes.len() > 0 {
        lemma_batch_runs_to_the_end(t, outcomes);
        assert forall|k: int| 0 <= k < outcomes.len() implies (#[trigger] run[k]).request == (
        RequestView::Decrypt {
            source: spec_join(s.locked, pdf_names(names)[k]),
            destination: spec_join(s.unlocked, pdf_names(names)[k]),
        }) by {
            if k > 0 {
                assert(run[k] == rest[k - 1]);
                assert(rest[k - 1].request == spec_request_after(t, k - 1));
            }
        }
        assert(run.last() == rest.last());
    }
}

} // verus!

//! One run, as a state machine.
//!
//! A [`Session`] never touches the outside world. It hands its driver a
//! [`Step`]: lines to print and one [`Request`] to carry out. The driver
//! answers with a [`Reply`], and the session decides what comes next. A run
//! ends with [`Request::Exit`].

use vstd::prelude::*;
use crate::notice::{spec_verdict, verdict, Notice, NoticeView, Outcome, OutcomeView};
use crate::paths::{is_pdf, join, spec_is_pdf, spec_join};

verus! {

/// What a session is waiting for.
#[derive(Clone, Copy, Debug, PartialEq, Eq, Structural)]
pub enum Phase {
    /// Whether the decryption tool is available.
    Probing,
    /// Whether the source directory is a directory.
    CheckingLocked,
    /// Whether the destination directory exists.
    CheckingUnlocked,
    /// The creation of the destination directory.
    Creating,
    /// The entries of the source directory.
    Listing,
    /// The end of one invocation of the tool.
    Unlocking,
    /// Nothing: the run is over.
    Finished,
}

/// What the driver has to do next.
#[derive(Clone, Debug, PartialEq, Eq)]
pub enum Request {
    /// Ask the tool for its version; it is available if that succeeds.
    ProbeTool,
    /// Find out whether `path` exists and is a directory.
    CheckLocked { path: String },
    /// Find out whether `path` exists.
    CheckUnlocked { path: String },
    /// Create the directory `path`; its parent exists.
    CreateUnlocked { path: String },
    /// List the names of the immediate entries of `path`.
    ListLocked { path: String },
    /// Run the tool so that it decrypts `source` into `destination`.
    Decrypt { source: String, destination: String },
    /// End the process with `code`.
    Exit { code: i32 },
}

/// A [`Request`] as a mathematical value.
pub enum RequestView {
    ProbeTool,
    CheckLocked { path: Seq<char> },
    CheckUnlocked { path: Seq<char> },
    CreateUnlocked { path: Seq<char> },
    ListLocked { path: Seq<char> },
    Decrypt { source: Seq<char>, destination: Seq<char> },
    Exit { code: i32 },
}

impl View for Request {
    type V = RequestView;

    open spec fn view(&self) -> RequestView {
        match self {
            Request::ProbeTool => RequestView::ProbeTool,
            Request::CheckLocked { path } => RequestView::CheckLocked { path: path@ },
            Request::CheckUnlocked { path } => RequestView::CheckUnlocked { path: path@ },
            Request::CreateUnlocked { path } => RequestView::CreateUnlocked { path: path@ },
            Request::ListLocked { path } => RequestView::ListLocked { path: path@ },
            Request::Decrypt { source, destination } => RequestView::Decrypt {
                source: source@,
                destination: destination@,
            },
            Request::Exit { code } => RequestView::Exit { code: *code },
        }
    }
}

impl RequestView {
    /// The command line that carries the request out, where it is one for
    /// the decryption tool: the tool's name, then its arguments.
    pub open spec fn command(self) -> Option<Seq<Seq<char>>> {
        match self {
            RequestView::ProbeTool => Some(seq!["qpdf"@, "--version"@]),
            RequestView::Decrypt { source, destination } => Some(
                seq!["qpdf"@, "--decrypt"@, source, destination],
            ),
            _ => None,
        }
    }
}

impl Request {
    /// The command line that carries the request out, where it is one for
    /// the decryption tool: the tool's name, then its arguments. The tool is
    /// available if the probe exits with status zero, and has decrypted a
    /// file if the decryption does.
    pub fn command(&self) -> (line: Option<Vec<String>>)
        ensures
            match self@.command() {
                Some(words) => line is Some && texts(line->0@) == words,
                None => line is None,
            },
    {
        match self {
            Request::ProbeTool => {
                let mut line: Vec<String> = Vec::new();
                line.push(String::from_str("qpdf"));
                line.push(String::from_str("--version"));
                assert(texts(line@) =~= seq!["qpdf"@, "--version"@]);
                Some(line)
            },
            Request::Decrypt { source, destination } => {
                let mut line: Vec<String> = Vec::new();
                line.push(String::from_str("qpdf"));
                line.push(String::from_str("--decrypt"));
                line.push(source.clone());
                line.push(destination.clone());
                assert(texts(line@) =~= seq!["qpdf"@, "--decrypt"@, source@, destination@]);
                Some(line)
            },
            _ => None,
        }
    }
}

/// The driver's answer to a [`Request`].
#[derive(Clone, Debug, PartialEq, Eq)]
pub enum Reply {
    /// To `ProbeTool`.
    ToolProbed { available: bool },
    /// To `CheckLocked`.
    LockedChecked { is_directory: bool },
    /// To `CheckUnlocked`.
    UnlockedChecked { exists: bool },
    /// To `CreateUnlocked`: the directory was created.
    Created,
    /// To `CreateUnlocked`: it was not, because of `cause`.
    CreateFailed { cause: String },
    /// To `ListLocked`: the names of the entries that could be read, in the
    /// order in which the directory gave them.
    Listed { names: Vec<String> },
    /// To `ListLocked`: the directory could not be listed, because of `cause`.
    ListFailed { cause: String },
    /// To `Decrypt`.
    Decrypted { outcome: Outcome },
}

/// A [`Reply`] as a mathematical value.
pub enum ReplyView {
    ToolProbed { available: bool },
    LockedChecked { is_directory: bool },
    UnlockedChecked { exists: bool },
    Created,
    CreateFailed { cause: Seq<char> },
    Listed { names: Seq<Seq<char>> },
    ListFailed { cause: Seq<char> },
    Decrypted { outcome: OutcomeView },
}

/// The strings of `v`, each as its characters.
pub open spec fn texts(v: Seq<String>) -> Seq<Seq<char>> {
    Seq::new(v.len(), |i: int| v[i]@)
}

impl View for Reply {
    type V = ReplyView;

    open spec fn view(&self) -> ReplyView {
        match self {
            Reply::ToolProbed { available } => ReplyView::ToolProbed { available: *available },
            Reply::LockedChecked { is_directory } => ReplyView::LockedChecked {
                is_directory: *is_directory,
            },
            Reply::UnlockedChecked { exists } => ReplyView::UnlockedChecked { exists: *exists },
            Reply::Created => ReplyView::Created,
            Reply::CreateFailed { cause } => ReplyView::CreateFailed { cause: cause@ },
            Reply::Listed { names } => ReplyView::Listed { names: texts(names@) },
            Reply::ListFailed { cause } => ReplyView::ListFailed { cause: cause@ },
            Reply::Decrypted { outcome } => ReplyView::Decrypted { outcome: outcome@ },
        }
    }
}

/// What a session hands its driver: lines to print, in order, then one
/// request.
#[derive(Clone, Debug, PartialEq, Eq)]
pub struct Step {
    pub notices: Vec<Notice>,
    pub request: Request,
}

/// A [`Step`] as a mathematical value.
pub struct StepView {
    pub notices: Seq<NoticeView>,
    pub request: RequestView,
}

/// The notices of `v`, each as its view.
pub open spec fn notice_views(v: Seq<Notice>) -> Seq<NoticeView> {
    Seq::new(v.len(), |i: int| v[i]@)
}

impl View for Step {
    type V = StepView;

    open spec fn view(&self) -> StepView {
        StepView { notices: notice_views(self.notices@), request: self.request@ }
    }
}

/// A [`Session`] as a mathematical value.
pub struct SessionView {
    /// What the session is waiting for.
    pub phase: Phase,
    /// The source directory.
    pub locked: Seq<char>,
    /// The destination directory.
    pub unlocked: Seq<char>,
    /// The names of the PDF files of this run, in listing order.
    pub queue: Seq<Seq<char>>,
    /// How many of them are done.
    pub cursor: nat,
}

/// The names among `names` that are PDF files, in the same order.
pub open spec fn pdf_names(names: Seq<Seq<char>>) -> Seq<Seq<char>>
    decreases names.len(),
{
    if names.len() == 0 {
        seq![]
    } else if spec_is_pdf(names.last()) {
        pdf_names(names.drop_last()).push(names.last())
    } else {
        pdf_names(names.drop_last())
    }
}

impl SessionView {
    /// The same session in another phase.
    pub open spec fn at(self, phase: Phase) -> SessionView {
        SessionView { phase, ..self }
    }

    /// The file that entry `i` of the queue is read from.
    pub open spec fn source(self, i: int) -> Seq<char> {
        spec_join(self.locked, self.queue[i])
    }

    /// The file that entry `i` of the queue is written to.
    pub open spec fn destination(self, i: int) -> Seq<char> {
        spec_join(self.unlocked, self.queue[i])
    }

    /// The announcement and the request for entry `i` of the queue, after
    /// the lines `before`.
    pub open spec fn unlock(self, before: Seq<NoticeView>, i: int) -> StepView {
        StepView {
            notices: before.push(NoticeView::Unlocking { source: self.source(i) }),
            request: RequestView::Decrypt {
                source: self.source(i),
                destination: self.destination(i),
            },
        }
    }

    /// What a well-formed session holds: only PDF files are queued, and
    /// while the tool runs, it runs on one of them.
    pub open spec fn wf(self) -> bool {
        &&& forall|i: int| 0 <= i < self.queue.len() ==> spec_is_pdf(#[trigger] self.queue[i])
        &&& self.phase == Phase::Unlocking ==> self.cursor < self.queue.len()
    }
}

/// The end of a run: the lines `notices`, then exit with `code`.
pub open spec fn spec_exit(notices: Seq<NoticeView>, code: i32) -> StepView {
    StepView { notices, request: RequestView::Exit { code } }
}

/// A step that prints nothing.
pub open spec fn spec_ask(request: RequestView) -> StepView {
    StepView { notices: seq![], request }
}

/// The name in a usage line: the first argument, where there is one.
pub open spec fn spec_program(args: Seq<Seq<char>>) -> Seq<char> {
    if args.len() > 0 {
        args[0]
    } else {
        seq![]
    }
}

/// How a run begins. `args` is the whole command line: the program's name,
/// then its arguments. Exactly one argument, the base directory, is
/// accepted; the tool is probed before any directory is looked at.
pub open spec fn spec_start(args: Seq<Seq<char>>) -> (SessionView, StepView) {
    if args.len() == 2 {
        (
            SessionView {
                phase: Phase::Probing,
                locked: spec_join(args[1], "locked"@),
                unlocked: spec_join(args[1], "unlocked"@),
                queue: seq![],
                cursor: 0,
            },
            spec_ask(RequestView::ProbeTool),
        )
    } else {
        (
            SessionView {
                phase: Phase::Finished,
                locked: seq![],
                unlocked: seq![],
                queue: seq![],
                cursor: 0,
            },
            spec_exit(seq![NoticeView::Usage { program: spec_program(args) }], 1),
        )
    }
}

/// How a run goes on: the session after `reply` and the step that it
/// hands out, or `None` where `reply` does not answer what `s` waits for.
pub open spec fn spec_advance(s: SessionView, reply: ReplyView) -> Option<(SessionView, StepView)> {
    match (s.phase, reply) {
        (Phase::Probing, ReplyView::ToolProbed { available }) => Some(
            if available {
                (
                    s.at(Phase::CheckingLocked),
                    spec_ask(RequestView::CheckLocked { path: s.locked }),
                )
            } else {
                (s.at(Phase::Finished), spec_exit(seq![NoticeView::ToolMissing], 1))
            },
        ),
        (Phase::CheckingLocked, ReplyView::LockedChecked { is_directory }) => Some(
            if is_directory {
                (
                    s.at(Phase::CheckingUnlocked),
                    spec_ask(RequestView::CheckUnlocked { path: s.unlocked }),
                )
            } else {
                (
                    s.at(Phase::Finished),
                    spec_exit(seq![NoticeView::LockedMissing { path: s.locked }], 1),
                )
            },
        ),
        (Phase::CheckingUnlocked, ReplyView::UnlockedChecked { exists }) => Some(
            if exists {
                (s.at(Phase::Listing), spec_ask(RequestView::ListLocked { path: s.locked }))
            } else {
                (
                    s.at(Phase::Creating),
                    spec_ask(RequestView::CreateUnlocked { path: s.unlocked }),
                )
            },
        ),
        (Phase::Creating, ReplyView::Created) => Some(
            (
                s.at(Phase::Listing),
                StepView {
                    notices: seq![NoticeView::CreatedUnlocked { path: s.unlocked }],
                    request: RequestView::ListLocked { path: s.locked },
                },
            ),
        ),
        (Phase::Creating, ReplyView::CreateFailed { cause }) => Some(
            (
                s.at(Phase::Finished),
                spec_exit(seq![NoticeView::CreateFailed { path: s.unlocked, cause }], 1),
            ),
        ),
        (Phase::Listing, ReplyView::Listed { names }) => {
            let t = SessionView { queue: pdf_names(names), cursor: 0, ..s };
            Some(
                if t.queue.len() > 0 {
                    (t.at(Phase::Unlocking), t.unlock(seq![], 0))
                } else {
                    (t.at(Phase::Finished), spec_exit(seq![], 0))
                },
            )
        },
        (Phase::Listing, ReplyView::ListFailed { cause }) => Some(
            (
                s.at(Phase::Finished),
                spec_exit(seq![NoticeView::ListFailed { path: s.locked, cause }], 1),
            ),
        ),
        (Phase::Unlocking, ReplyView::Decrypted { outcome }) => {
            let done = s.cursor as int;
            let report = seq![spec_verdict(s.source(done), s.destination(done), outcome)];
            let t = SessionView { cursor: s.cursor + 1, ..s };
            Some(
                if t.cursor < t.queue.len() {
                    (t, t.unlock(report, done + 1))
                } else {
                    (t.at(Phase::Finished), spec_exit(report, 0))
                },
            )
        },
        _ => None,
    }
}

/// Every name that [`pdf_names`] keeps is a PDF file.
pub proof fn lemma_pdf_names_are_pdf(names: Seq<Seq<char>>)
    ensures
        forall|i: int|
            0 <= i < pdf_names(names).len() ==> spec_is_pdf(#[trigger] pdf_names(names)[i]),
    decreases names.len(),
{
    if names.len() > 0 {
        let rest = pdf_names(names.drop_last());
        lemma_pdf_names_are_pdf(names.drop_last());
        assert forall|i: int| 0 <= i < pdf_names(names).len() implies spec_is_pdf(
            #[trigger] pdf_names(names)[i],
        ) by {
            if i < rest.len() {
                assert(pdf_names(names)[i] == rest[i]);
            }
        }
    }
}

/// The names among `names` that are PDF files, in the same order.
pub fn pdf_entries(names: &Vec<String>) -> (queue: Vec<String>)
    ensures
        texts(queue@) == pdf_names(texts(names@)),
{
    let mut queue: Vec<String> = Vec::new();
    let mut i: usize = 0;
    while i < names.len()
        invariant
            i <= names.len(),
            texts(queue@) == pdf_names(texts(names@).take(i as int)),
        decreases names.len() - i,
    {
        let ghost seen = texts(names@).take(i + 1);
        let ghost kept = texts(queue@);
        assert(seen.drop_last() =~= texts(names@).take(i as int));
        assert(seen.last() == names@[i as int]@);
        if is_pdf(names[i].as_str()) {
            queue.push(names[i].clone());
            assert(texts(queue@) =~= kept.push(names@[i as int]@));
        }
        i += 1;
    }
    assert(texts(names@).take(names@.len() as int) =~= texts(names@));
    queue
}

/// One run of the program, between two requests.
#[derive(Debug)]
pub struct Session {
    phase: Phase,
    locked: String,
    unlocked: String,
    queue: Vec<String>,
    cursor: usize,
}

impl View for Session {
    type V = SessionView;

    closed spec fn view(&self) -> SessionView {
        SessionView {
            phase: self.phase,
            locked: self.locked@,
            unlocked: self.unlocked@,
            queue: texts(self.queue@),
            cursor: self.cursor as nat,
        }
    }
}

/// A step that ends the run with one line, or with none.
fn exit_with(notice: Option<Notice>, code: i32) -> (step: Step)
    ensures
        step@ == spec_exit(
            match notice {
                Some(n) => seq![n@],
                None => seq![],
            },
            code,
        ),
{
    let mut notices: Vec<Notice> = Vec::new();
    if let Some(n) = notice {
        notices.push(n);
        assert(notice_views(notices@) =~= seq![n@]);
    } else {
        assert(notice_views(notices@) =~= seq![]);
    }
    Step { notices, request: Request::Exit { code } }
}

/// A step that prints nothing.
fn ask(request: Request) -> (step: Step)
    ensures
        step@ == spec_ask(request@),
{
    let notices: Vec<Notice> = Vec::new();
    assert(notice_views(notices@) =~= seq![]);
    Step { notices, request }
}

impl Session {
    /// Begins a run on the command line `args`: the program's name, then its
    /// arguments.
    pub fn start(args: Vec<String>) -> (begun: (Session, Step))
        ensures
            begun.0@.wf(),
            (begun.0@, begun.1@) == spec_start(texts(args@)),
    {
        if args.len() == 2 {
            let session = Session {
                phase: Phase::Probing,
                locked: join(args[1].as_str(), "locked"),
                unlocked: join(args[1].as_str(), "unlocked"),
                queue: Vec::new(),
                cursor: 0,
            };
            assert(texts(session.queue@) =~= seq![]);
            (session, ask(Request::ProbeTool))
        } else {
            let program = if args.len() > 0 {
                args[0].clone()
            } else {
                String::new()
            };
            let session = Session {
                phase: Phase::Finished,
                locked: String::new(),
                unlocked: String::new(),
                queue: Vec::new(),
                cursor: 0,
            };
            assert(texts(session.queue@) =~= seq![]);
            (session, exit_with(Some(Notice::Usage { program }), 1))
        }
    }

    /// What the session is waiting for.
    pub fn phase(&self) -> (phase: Phase)
        ensures
            phase == self@.phase,
    {
        self.phase
    }

    /// The announcement and the request for entry `i` of the queue, after
    /// the lines `notices`.
    fn unlock(&self, notices: Vec<Notice>, i: usize) -> (step: Step)
        requires
            i < self@.queue.len(),
        ensures
            step@ == self@.unlock(notice_views(notices@), i as int),
    {
        let ghost before = notice_views(notices@);
        let mut notices = notices;
        let name = self.queue[i].as_str();
        let source = join(self.locked.as_str(), name);
        let destination = join(self.unlocked.as_str(), name);
        notices.push(Notice::Unlocking { source: source.clone() });
        assert(notice_views(notices@) =~= before.push(
            NoticeView::Unlocking { source: self@.source(i as int) },
        ));
        Step { notices, request: Request::Decrypt { source, destination } }
    }

    /// Takes the driver's answer to the last request and says what comes
    /// next. An answer to anything but the last request changes nothing and
    /// gives `None`; so does any answer once the run is over.
    pub fn advance(&mut self, reply: Reply) -> (step: Option<Step>)
        requires
            old(self)@.wf(),
        ensures
            final(self)@.wf(),
            match spec_advance(old(self)@, reply@) {
                Some((session, next)) => step is Some && step->0@ == next && final(self)@
                    == session,
                None => step is None && final(self)@ == old(self)@,
            },
    {
        match reply {
            Reply::ToolProbed { available } => {
                if self.phase != Phase::Probing {
                    None
                } else if available {
                    self.phase = Phase::CheckingLocked;
                    Some(ask(Request::CheckLocked { path: self.locked.clone() }))
                } else {
                    self.phase = Phase::Finished;
                    Some(exit_with(Some(Notice::ToolMissing), 1))
                }
            },
            Reply::LockedChecked { is_directory } => {
                if self.phase != Phase::CheckingLocked {
                    None
                } else if is_directory {
                    self.phase = Phase::CheckingUnlocked;
                    Some(ask(Request::CheckUnlocked { path: self.unlocked.clone() }))
                } else {
                    self.phase = Phase::Finished;
                    Some(exit_with(Some(Notice::LockedMissing { path: self.locked.clone() }), 1))
                }
            },
            Reply::UnlockedChecked { exists } => {
                if self.phase != Phase::CheckingUnlocked {
                    None
                } else if exists {
                    self.phase = Phase::Listing;
                    Some(ask(Request::ListLocked { path: self.locked.clone() }))
                } else {
                    self.phase = Phase::Creating;
                    Some(ask(Request::CreateUnlocked { path: self.unlocked.clone() }))
                }
            },
            Reply::Created => {
                if self.phase != Phase::Creating {
                    None
                } else {
                    self.phase = Phase::Listing;
                    let mut notices: Vec<Notice> = Vec::new();
                    notices.push(Notice::CreatedUnlocked { path: self.unlocked.clone() });
                    assert(notice_views(notices@) =~= seq![
                        NoticeView::CreatedUnlocked { path: self.unlocked@ },
                    ]);
                    let request = Request::ListLocked { path: self.locked.clone() };
                    Some(Step { notices, request })
                }
            },
            Reply::CreateFailed { cause } => {
                if self.phase != Phase::Creating {
                    None
                } else {
                    self.phase = Phase::Finished;
                    Some(
                        exit_with(
                            Some(Notice::CreateFailed { path: self.unlocked.clone(), cause }),
                            1,
                        ),
                    )
                }
            },
            Reply::Listed { names } => {
                if self.phase != Phase::Listing {
                    None
                } else {
                    proof {
                        lemma_pdf_names_are_pdf(texts(names@));
                    }
                    self.queue = pdf_entries(&names);
                    self.cursor = 0;
                    if self.queue.len() > 0 {
                        self.phase = Phase::Unlocking;
                        let step = self.unlock(Vec::new(), 0);
                        assert(notice_views(Seq::<Notice>::empty()) =~= seq![]);
                        Some(step)
                    } else {
                        self.phase = Phase::Finished;
                        Some(exit_with(None, 0))
                    }
                }
            },
            Reply::ListFailed { cause } => {
                if self.phase != Phase::Listing {
                    None
                } else {
                    self.phase = Phase::Finished;
                    Some(
                        exit_with(Some(Notice::ListFailed { path: self.locked.clone(), cause }), 1),
                    )
                }
            },
            Reply::Decrypted { outcome } => {
                if self.phase != Phase::Unlocking {
                    None
                } else {
                    let done: usize = self.cursor;
                    let total: usize = self.queue.len();
                    let name = self.queue[done].as_str();
                    let source = join(self.locked.as_str(), name);
                    let destination = join(self.unlocked.as_str(), name);
                    let report = verdict(source, destination, outcome);
                    self.cursor = done + 1;
                    if self.cursor < total {
                        let mut notices: Vec<Notice> = Vec::new();
                        notices.push(report);
                        assert(notice_views(notices@) =~= seq![report@]);
                        Some(self.unlock(notices, done + 1))
                    } else {
                        self.phase = Phase::Finished;
                        Some(exit_with(Some(report), 0))
                    }
                }
            },
        }
    }
}

} // verus!

use pdf_unlock::notice::{Notice, Outcome};
use pdf_unlock::session::{pdf_entries, Phase, Reply, Request, Session, Step};

fn s(text: &str) -> String {
    text.to_string()
}

fn strings(texts: &[&str]) -> Vec<String> {
    texts.iter().map(|t| t.to_string()).collect()
}

/// A world that answers every request from a script.
struct World {
    tool: bool,
    locked_is_directory: bool,
    unlocked_exists: bool,
    create: Result<(), String>,
    listing: Result<Vec<String>, String>,
    /// Sources on which the tool reports failure.
    failing: Vec<String>,
    /// Sources on which the tool cannot be started.
    unstartable: Vec<String>,
}

fn world(names: &[&str]) -> World {
    World {
        tool: true,
        locked_is_directory: true,
        unlocked_exists: true,
        create: Ok(()),
        listing: Ok(strings(names)),
        failing: Vec::new(),
        unstartable: Vec::new(),
    }
}

/// What a run left behind.
struct Trace {
    out: Vec<String>,
    err: Vec<String>,
    commands: Vec<Vec<String>>,
    requests: Vec<Request>,
    written: Vec<String>,
    code: i32,
}

fn record(step: &Step, trace: &mut Trace) {
    for notice in &step.notices {
        if notice.is_error() {
            trace.err.push(notice.text());
        } else {
            trace.out.push(notice.text());
        }
    }
    if let Some(line) = step.request.command() {
        trace.commands.push(line);
    }
    trace.requests.push(step.request.clone());
}

fn run(args: &[&str], world: &World) -> Trace {
    let mut trace = Trace {
        out: Vec::new(),
        err: Vec::new(),
        commands: Vec::new(),
        requests: Vec::new(),
        written: Vec::new(),
        code: -1,
    };
    let (mut session, mut step) = Session::start(strings(args));
    loop {
        record(&step, &mut trace);
        let reply = match &step.request {
            Request::ProbeTool => Reply::ToolProbed { available: world.tool },
            Request::CheckLocked { .. } => {
                Reply::LockedChecked { is_directory: world.locked_is_directory }
            }
            Request::CheckUnlocked { .. } => {
                Reply::UnlockedChecked { exists: world.unlocked_exists }
            }
            Request::CreateUnlocked { .. } => match &world.create {
                Ok(()) => Reply::Created,
                Err(cause) => Reply::CreateFailed { cause: cause.clone() },
            },
            Request::ListLocked { .. } => match &world.listing {
                Ok(names) => Reply::Listed { names: names.clone() },
                Err(cause) => Reply::ListFailed { cause: cause.clone() },
            },
            Request::Decrypt { source, destination } => {
                let outcome = if world.unstartable.contains(source) {
                    Outcome::LaunchError { cause: s("No such file or directory") }
                } else if world.failing.contains(source) {
                    Outcome::Failed
                } else {
                    if !trace.written.contains(destination) {
                        trace.written.push(destination.clone());
                    }
                    Outcome::Success
                };
                Reply::Decrypted { outcome }
            }
            Request::Exit { code } => {
                trace.code = *code;
                assert_eq!(session.phase(), Phase::Finished);
                return trace;
            }
        };
        step = session.advance(reply).unwrap();
    }
}

#[test]
fn no_argument_is_a_usage_error() {
    let t = run(&["unlock"], &world(&["a.pdf"]));
    assert_eq!(t.code, 1);
    assert_eq!(t.err, strings(&["Usage: unlock <base_directory>"]));
    assert!(t.out.is_empty());
    assert_eq!(t.requests, vec![Request::Exit { code: 1 }]);
}

#[test]
fn two_arguments_are_a_usage_error() {
    let t = run(&["unlock", "/tmp/x", "extra"], &world(&["a.pdf"]));
    assert_eq!(t.code, 1);
    assert_eq!(t.err, strings(&["Usage: unlock <base_directory>"]));
    assert!(t.commands.is_empty());
}

#[test]
fn an_empty_command_line_is_a_usage_error() {
    let t = run(&[], &world(&[]));
    assert_eq!(t.code, 1);
    assert_eq!(t.err, strings(&["Usage:  <base_directory>"]));
}

#[test]
fn a_missing_tool_ends_the_run_whatever_the_directories() {
    for locked in [false, true] {
        for unlocked in [false, true] {
            let mut w = world(&["a.pdf"]);
            w.tool = false;
            w.locked_is_directory = locked;
            w.unlocked_exists = unlocked;
            let t = run(&["unlock", "/tmp/x"], &w);
            assert_eq!(t.code, 1);
            assert_eq!(
                t.err,
                strings(&["Error: 'qpdf' is not installed. Please install it and try again."])
            );
            assert_eq!(t.requests, vec![Request::ProbeTool, Request::Exit { code: 1 }]);
            assert_eq!(t.commands, vec![strings(&["qpdf", "--version"])]);
        }
    }
}

#[test]
fn a_missing_locked_directory_ends_the_run() {
    let mut w = world(&["a.pdf"]);
    w.locked_is_directory = false;
    let t = run(&["unlock", "/tmp/x"], &w);
    assert_eq!(t.code, 1);
    assert_eq!(
        t.err,
        strings(&["Error: '/tmp/x/locked' directory does not exist or is not a directory."])
    );
    assert_eq!(
        t.requests,
        vec![
            Request::ProbeTool,
            Request::CheckLocked { path: s("/tmp/x/locked") },
            Request::Exit { code: 1 },
        ]
    );
}

#[test]
fn only_lower_case_pdf_files_reach_the_tool() {
    let t = run(&["unlock", "/tmp/x"], &world(&["a.pdf", "b.txt", "c.PDF"]));
    assert_eq!(t.code, 0);
    assert_eq!(
        t.commands,
        vec![
            strings(&["qpdf", "--version"]),
            strings(&["qpdf", "--decrypt", "/tmp/x/locked/a.pdf", "/tmp/x/unlocked/a.pdf"]),
        ]
    );
    assert_eq!(
        t.out,
        strings(&["Unlocking: /tmp/x/locked/a.pdf", "Unlocked: /tmp/x/unlocked/a.pdf"])
    );
    assert!(t.err.is_empty());
}

#[test]
fn pdf_entries_keeps_the_listing_order() {
    let names = strings(&["z.pdf", "b.txt", "a.pdf", "c.PDF", ".pdf", "m.pdf", "d.Pdf"]);
    assert_eq!(pdf_entries(&names), strings(&["z.pdf", "a.pdf", "m.pdf"]));
    assert_eq!(pdf_entries(&Vec::new()), Vec::<String>::new());
    assert_eq!(pdf_entries(&strings(&["a.pdf", "a.pdf"])), strings(&["a.pdf", "a.pdf"]));
}

#[test]
fn a_missing_unlocked_directory_is_created_and_confirmed_once() {
    let mut w = world(&["a.pdf", "b.pdf"]);
    w.unlocked_exists = false;
    let t = run(&["unlock", "/tmp/x"], &w);
    assert_eq!(t.code, 0);
    let created: Vec<&Request> =
        t.requests.iter().filter(|r| matches!(r, Request::CreateUnlocked { .. })).collect();
    assert_eq!(created, vec![&Request::CreateUnlocked { path: s("/tmp/x/unlocked") }]);
    let confirmations =
        t.out.iter().filter(|l| *l == "Created missing '/tmp/x/unlocked' directory.").count();
    assert_eq!(confirmations, 1);
    assert_eq!(t.out[0], "Created missing '/tmp/x/unlocked' directory.");
}

#[test]
fn an_existing_unlocked_directory_is_left_alone() {
    let t = run(&["unlock", "/tmp/x"], &world(&["a.pdf"]));
    assert!(!t.requests.iter().any(|r| matches!(r, Request::CreateUnlocked { .. })));
    assert!(!t.out.iter().any(|l| l.starts_with("Created missing")));
}

#[test]
fn a_failed_creation_ends_the_run() {
    let mut w = world(&["a.pdf"]);
    w.unlocked_exists = false;
    w.create = Err(s("Permission denied (os error 13)"));
    let t = run(&["unlock", "/tmp/x"], &w);
    assert_eq!(t.code, 1);
    assert_eq!(
        t.err,
        strings(&["Error creating '/tmp/x/unlocked': Permission denied (os error 13)"])
    );
    assert!(t.out.is_empty());
    assert_eq!(t.commands.len(), 1);
}

#[test]
fn a_failed_listing_ends_the_run() {
    let mut w = world(&[]);
    w.listing = Err(s("Permission denied (os error 13)"));
    let t = run(&["unlock", "/tmp/x"], &w);
    assert_eq!(t.code, 1);
    assert_eq!(
        t.err,
        strings(&["Error reading '/tmp/x/locked': Permission denied (os error 13)"])
    );
    assert_eq!(t.commands.len(), 1);
}

#[test]
fn an_empty_directory_is_a_success() {
    let t = run(&["unlock", "/tmp/x"], &world(&[]));
    assert_eq!(t.code, 0);
    assert!(t.out.is_empty());
    assert!(t.err.is_empty());
    assert_eq!(t.commands.len(), 1);
}

#[test]
fn one_failure_does_not_stop_the_batch() {
    let mut w = world(&["a.pdf", "b.pdf", "c.pdf"]);
    w.failing = strings(&["/tmp/x/locked/b.pdf"]);
    let t = run(&["unlock", "/tmp/x"], &w);
    assert_eq!(t.code, 0);
    assert_eq!(
        t.out,
        strings(&[
            "Unlocking: /tmp/x/locked/a.pdf",
            "Unlocked: /tmp/x/unlocked/a.pdf",
            "Unlocking: /tmp/x/locked/b.pdf",
            "Unlocking: /tmp/x/locked/c.pdf",
            "Unlocked: /tmp/x/unlocked/c.pdf",
        ])
    );
    assert_eq!(t.err, strings(&["Failed to unlock: /tmp/x/locked/b.pdf"]));
    assert_eq!(t.written, strings(&["/tmp/x/unlocked/a.pdf", "/tmp/x/unlocked/c.pdf"]));
}

#[test]
fn a_tool_that_cannot_be_started_is_reported_per_file() {
    let mut w = world(&["a.pdf", "b.pdf"]);
    w.unstartable = strings(&["/tmp/x/locked/a.pdf"]);
    let t = run(&["unlock", "/tmp/x"], &w);
    assert_eq!(t.code, 0);
    assert_eq!(
        t.err,
        strings(&["Error running qpdf on '/tmp/x/locked/a.pdf': No such file or directory"])
    );
    assert_eq!(t.written, strings(&["/tmp/x/unlocked/b.pdf"]));
}

#[test]
fn a_second_run_writes_the_same_files() {
    let mut w = world(&["a.pdf", "b.pdf", "notes.txt"]);
    w.failing = strings(&["/tmp/x/locked/b.pdf"]);
    let first = run(&["unlock", "/tmp/x"], &w);
    let second = run(&["unlock", "/tmp/x"], &w);
    assert_eq!(first.code, 0);
    assert_eq!(second.code, 0);
    assert_eq!(first.written, second.written);
    assert_eq!(first.commands, second.commands);
    assert_eq!(first.written, strings(&["/tmp/x/unlocked/a.pdf"]));
}

#[test]
fn the_requests_do_not_depend_on_the_outcomes() {
    let calm = world(&["a.pdf", "b.pdf", "c.pdf"]);
    let mut rough = world(&["a.pdf", "b.pdf", "c.pdf"]);
    rough.failing = strings(&["/tmp/x/locked/a.pdf"]);
    rough.unstartable = strings(&["/tmp/x/locked/c.pdf"]);
    let first = run(&["unlock", "/tmp/x"], &calm);
    let second = run(&["unlock", "/tmp/x"], &rough);
    assert_eq!(first.requests, second.requests);
    assert_eq!(first.code, 0);
    assert_eq!(second.code, 0);
}

#[test]
fn end_to_end_with_one_secret_file() {
    let t = run(&["unlock", "/tmp/x"], &world(&["secret.pdf"]));
    assert_eq!(
        t.out,
        strings(&["Unlocking: /tmp/x/locked/secret.pdf", "Unlocked: /tmp/x/unlocked/secret.pdf"])
    );
    assert!(t.err.is_empty());
    assert_eq!(t.code, 0);
    assert_eq!(t.written, strings(&["/tmp/x/unlocked/secret.pdf"]));
    assert_eq!(
        t.requests,
        vec![
            Request::ProbeTool,
            Request::CheckLocked { path: s("/tmp/x/locked") },
            Request::CheckUnlocked { path: s("/tmp/x/unlocked") },
            Request::ListLocked { path: s("/tmp/x/locked") },
            Request::Decrypt {
                source: s("/tmp/x/locked/secret.pdf"),
                destination: s("/tmp/x/unlocked/secret.pdf"),
            },
            Request::Exit { code: 0 },
        ]
    );
}

#[test]
fn a_base_directory_with_a_trailing_separator() {
    let t = run(&["unlock", "/tmp/x/"], &world(&["secret.pdf"]));
    assert_eq!(
        t.commands[1],
        strings(&["qpdf", "--decrypt", "/tmp/x/locked/secret.pdf", "/tmp/x/unlocked/secret.pdf"])
    );
}

#[test]
fn start_asks_for_the_probe_first() {
    let (session, step) = Session::start(strings(&["unlock", "/tmp/x"]));
    assert_eq!(session.phase(), Phase::Probing);
    assert_eq!(step, Step { notices: Vec::new(), request: Request::ProbeTool });
}

#[test]
fn an_answer_to_another_request_changes_nothing() {
    let (mut session, _) = Session::start(strings(&["unlock", "/tmp/x"]));
    assert_eq!(session.advance(Reply::Created), None);
    assert_eq!(session.advance(Reply::LockedChecked { is_directory: true }), None);
    assert_eq!(session.advance(Reply::Listed { names: strings(&["a.pdf"]) }), None);
    assert_eq!(session.advance(Reply::Decrypted { outcome: Outcome::Success }), None);
    assert_eq!(session.phase(), Phase::Probing);
    let step = session.advance(Reply::ToolProbed { available: true }).unwrap();
    assert_eq!(step.request, Request::CheckLocked { path: s("/tmp/x/locked") });
}

#[test]
fn a_finished_run_takes_no_answer() {
    let (mut session, step) = Session::start(strings(&["unlock"]));
    assert_eq!(step.request, Request::Exit { code: 1 });
    assert_eq!(session.phase(), Phase::Finished);
    assert_eq!(session.advance(Reply::ToolProbed { available: true }), None);
    assert_eq!(session.phase(), Phase::Finished);
}

#[test]
fn each_step_announces_the_next_file_after_the_report() {
    let (mut session, _) = Session::start(strings(&["unlock", "base"]));
    session.advance(Reply::ToolProbed { available: true }).unwrap();
    session.advance(Reply::LockedChecked { is_directory: true }).unwrap();
    session.advance(Reply::UnlockedChecked { exists: true }).unwrap();
    let first = session.advance(Reply::Listed { names: strings(&["a.pdf", "b.pdf"]) }).unwrap();
    assert_eq!(first.notices, vec![Notice::Unlocking { source: s("base/locked/a.pdf") }]);
    let second = session.advance(Reply::Decrypted { outcome: Outcome::Failed }).unwrap();
    assert_eq!(
        second,
        Step {
            notices: vec![
                Notice::UnlockFailed { source: s("base/locked/a.pdf") },
                Notice::Unlocking { source: s("base/locked/b.pdf") },
            ],
            request: Request::Decrypt {
                source: s("base/locked/b.pdf"),
                destination: s("base/unlocked/b.pdf"),
            },
        }
    );
    let last = session.advance(Reply::Decrypted { outcome: Outcome::Success }).unwrap();
    assert_eq!(
        last,
        Step {
            notices: vec![Notice::Unlocked { destination: s("base/unlocked/b.pdf") }],
            request: Request::Exit { code: 0 },
        }
    );
}

#[test]
fn only_the_tool_requests_have_a_command_line() {
    assert_eq!(Request::ProbeTool.command(), Some(strings(&["qpdf", "--version"])));
    assert_eq!(
        Request::Decrypt { source: s("in.pdf"), destination: s("out.pdf") }.command(),
        Some(strings(&["qpdf", "--decrypt", "in.pdf", "out.pdf"]))
    );
    assert_eq!(Request::CheckLocked { path: s("p") }.command(), None);
    assert_eq!(Request::CheckUnlocked { path: s("p") }.command(), None);
    assert_eq!(Request::CreateUnlocked { path: s("p") }.command(), None);
    assert_eq!(Request::ListLocked { path: s("p") }.command(), None);
    assert_eq!(Request::Exit { code: 0 }.command(), None);
}

use tkg_gui::consumer::{BuildState, BuildView, CloneView};
use tkg_gui::layout::LogLevel;
use tkg_gui::protocol::{BuildMsg, CloneMsg, WineBuildMsg};
use tkg_gui::supervisor::{prepare_input, send_input, Event, Phase, Stream, Supervisor};

fn is_terminal(m: &BuildMsg) -> bool {
    !matches!(m, BuildMsg::Line(_))
}

#[test]
fn spawn_failure_gives_one_spawn_error_and_nothing_else() {
    let mut s = Supervisor::new();
    let mut seen: Vec<BuildMsg> = Vec::new();
    seen.push(s.spawn_failed("No such file or directory (os error 2)".to_string()));
    // Output or exit events arriving afterwards are not forwarded.
    assert!(s.line("late".to_string()).is_none());
    s.stream_closed(Stream::Stdout);
    assert_eq!(seen.len(), 1);
    assert!(matches!(&seen[0], BuildMsg::SpawnError(r) if r == "No such file or directory (os error 2)"));
    assert!(seen.iter().all(|m| !matches!(m, BuildMsg::Line(_) | BuildMsg::Exit(_))));
    assert!(s.phase == Phase::Finished);
}

#[test]
fn a_full_run_ends_with_exactly_one_terminal_message() {
    let mut s = Supervisor::new();
    let mut seen: Vec<BuildMsg> = Vec::new();
    s.spawned(true, true, true);
    seen.extend(s.line("==> Making package".to_string()));
    seen.extend(s.line("warning: something".to_string()));
    s.stream_closed(Stream::Stderr);
    seen.extend(s.line("still stdout".to_string()));
    s.stream_closed(Stream::Stdout);
    assert!(s.phase == Phase::Waiting);
    seen.push(s.exited(Some(0)));
    seen.extend(s.line("after exit".to_string()));
    assert_eq!(seen.len(), 4);
    assert_eq!(seen.iter().filter(|m| is_terminal(m)).count(), 1);
    assert!(is_terminal(seen.last().unwrap()));
    assert!(matches!(seen[3], BuildMsg::Exit(0)));
}

#[test]
fn unknown_exit_status_is_reported_as_minus_one() {
    let mut s = Supervisor::new();
    s.spawned(false, true, false);
    s.stream_closed(Stream::Stdout);
    assert!(matches!(s.exited(None), BuildMsg::Exit(-1)));
}

#[test]
fn unreadable_exit_status_concludes_with_minus_one() {
    let mut s = Supervisor::new();
    s.spawned(false, false, false);
    assert!(s.phase == Phase::Waiting);
    assert!(matches!(s.conclude(None), BuildMsg::Exit(-1)));
    assert!(s.phase == Phase::Finished);
}

#[test]
fn conclude_closes_what_is_still_open() {
    let mut s = Supervisor::new();
    s.spawned(true, true, true);
    let mut seen: Vec<BuildMsg> = Vec::new();
    seen.extend(s.handle(Event::Line("one".to_string())));
    seen.extend(s.handle(Event::Closed(Stream::Stdout)));
    assert!(s.phase == Phase::Running);
    assert!(s.input_available);
    seen.push(s.conclude(Some(7)));
    assert!(!s.input_available && !s.stdout_open && !s.stderr_open);
    seen.extend(s.handle(Event::Line("late".to_string())));
    assert_eq!(seen.len(), 2);
    assert!(matches!(&seen[0], BuildMsg::Line(l) if l == "one"));
    assert!(matches!(seen[1], BuildMsg::Exit(7)));
    assert_eq!(send_input(&s, "y").unwrap_err(), "Process stdin not available");
}

#[test]
fn input_after_both_streams_close_is_refused() {
    let mut s = Supervisor::new();
    s.spawned(true, true, true);
    assert_eq!(send_input(&s, "y").unwrap(), "y\n");
    s.stream_closed(Stream::Stdout);
    assert!(send_input(&s, "y").is_ok());
    s.stream_closed(Stream::Stderr);
    // Output has closed; the exit status has not been observed yet.
    assert!(s.phase == Phase::Waiting);
    assert_eq!(send_input(&s, "y").unwrap_err(), "Process stdin not available");
}

#[test]
fn input_before_spawn_is_refused() {
    let s = Supervisor::new();
    assert_eq!(send_input(&s, "n").unwrap_err(), "Process stdin not available");
    assert_eq!(prepare_input(true, "").unwrap(), "\n");
}

#[test]
fn messages_convert_between_alphabets() {
    assert!(matches!(WineBuildMsg::from_build(BuildMsg::Exit(3)), WineBuildMsg::Exit(3)));
    assert!(matches!(CloneMsg::from_build(BuildMsg::Line("x".to_string())), CloneMsg::Line(l) if l == "x"));
    assert!(matches!(CloneMsg::from_build(BuildMsg::SpawnError("e".to_string())), CloneMsg::SpawnError(e) if e == "e"));
}

#[test]
fn build_view_records_lines_and_outcome() {
    let mut v = BuildView::running();
    v.apply(BuildMsg::Line("==> Starting".to_string()));
    v.apply(BuildMsg::Line("gcc: error: boom".to_string()));
    v.apply(BuildMsg::Exit(2));
    assert!(v.state == BuildState::Done(2));
    assert!(v.finished);
    assert_eq!(v.log.len(), 3);
    assert!(v.log[0].level == LogLevel::Stage);
    assert!(v.log[1].level == LogLevel::Error);
    assert_eq!(v.log[2].text, "==> Build finished with exit code 2");
    assert!(v.log[2].level == LogLevel::Error);

    let mut f = BuildView::running();
    f.apply(BuildMsg::SpawnError("nope".to_string()));
    assert!(f.state == BuildState::Failed);
    assert_eq!(f.log[0].text, "Error: nope");

    let mut ok = BuildView::running();
    ok.apply(BuildMsg::Exit(-1));
    assert_eq!(ok.log[0].text, "==> Build finished with exit code -1");
}

#[test]
fn clone_view_sets_status() {
    let mut c = CloneView::running();
    c.apply(BuildMsg::Line("Cloning into 'x'...".to_string()));
    c.apply(BuildMsg::Exit(0));
    assert_eq!(c.log, vec!["Cloning into 'x'...".to_string()]);
    assert_eq!(c.status, "Clone completed successfully.");
    assert!(!c.running);
    let mut d = CloneView::running();
    d.apply(BuildMsg::Exit(128));
    assert_eq!(d.status, "Clone finished with exit code 128.");
    let mut e = CloneView::running();
    e.apply(BuildMsg::SpawnError("Failed to spawn git: x".to_string()));
    assert_eq!(e.status, "Error: Failed to spawn git: x");
}

use code_runner::bridge::Pipe;
use code_runner::protocol::Action;
use code_runner::protocol::CompileOutcome;
use code_runner::protocol::Event;
use code_runner::protocol::ExecutionRequest;
use code_runner::protocol::Phase;
use code_runner::protocol::Transport;
use code_runner::session::Session;
use code_runner::workspace::Platform;
use code_runner::workspace::Workspace;

const ID: &str = "8a135099-ea61-439a-a621-dbaf6c829d90";

fn open(transport: Transport, platform: Platform, source: &str) -> (Session, Vec<Action>) {
    let workspace = Workspace::adopt(ID.to_string(), platform).unwrap();
    Session::begin_in(workspace, transport, ExecutionRequest { source_text: source.to_string() })
}

fn removals_unix() -> Vec<Action> {
    vec![
        Action::Remove(format!("temp/temp_{}.rs", ID)),
        Action::Remove(format!("temp/temp_{}", ID)),
    ]
}

fn running(transport: Transport) -> Session {
    let (mut session, _) = open(transport, Platform::Unix, "fn main() {}");
    session.step(Event::Stored);
    session.step(Event::CompilerExited { success: true, diagnostics: Vec::new() });
    session.step(Event::Spawned);
    assert_eq!(session.phase(), Phase::Running);
    session
}

fn sent(actions: &[Action]) -> Vec<String> {
    let mut texts = Vec::new();
    for action in actions {
        if let Action::Send(text) = action {
            texts.push(text.clone());
        }
    }
    texts
}

#[test]
fn opening_asks_for_the_source_to_be_stored() {
    let (session, actions) = open(Transport::Duplex, Platform::Unix, "fn main() {}");
    assert_eq!(session.phase(), Phase::Received);
    assert_eq!(session.transport(), Transport::Duplex);
    assert_eq!(session.identifier(), ID);
    assert!(!session.is_finished());
    assert_eq!(
        actions,
        vec![
            Action::EnsureDirectory("temp".to_string()),
            Action::Store {
                path: format!("temp/temp_{}.rs", ID),
                text: "fn main() {}".to_string(),
            },
        ]
    );
}

#[test]
fn stored_source_is_compiled() {
    let (mut session, _) = open(Transport::Duplex, Platform::Unix, "fn main() {}");
    let actions = session.step(Event::Stored);
    assert_eq!(session.phase(), Phase::Compiling);
    assert_eq!(
        actions,
        vec![Action::Compile {
            program: "rustc".to_string(),
            arguments: vec![
                format!("temp/temp_{}.rs", ID),
                "-o".to_string(),
                format!("temp/temp_{}", ID),
            ],
        }]
    );
}

#[test]
fn compiled_artifact_is_launched_with_input_on_duplex() {
    let (mut session, _) = open(Transport::Duplex, Platform::Unix, "fn main() {}");
    session.step(Event::Stored);
    let actions = session.step(Event::CompilerExited { success: true, diagnostics: Vec::new() });
    assert_eq!(session.phase(), Phase::Spawning);
    assert_eq!(
        actions,
        vec![Action::Launch { program: format!("./temp/temp_{}", ID), with_input: true }]
    );
}

#[test]
fn compiled_artifact_is_launched_without_input_on_event_stream() {
    let (mut session, _) = open(Transport::EventStream, Platform::Windows, "fn main() {}");
    session.step(Event::Stored);
    let actions = session.step(Event::CompilerExited { success: true, diagnostics: Vec::new() });
    assert_eq!(
        actions,
        vec![Action::Launch { program: format!(".\\temp\\temp_{}.exe", ID), with_input: false }]
    );
}

#[test]
fn store_failure_is_reported_and_ends_the_session() {
    let (mut session, _) = open(Transport::Duplex, Platform::Unix, "fn main() {}");
    let actions = session.step(Event::StoreFailed("disk full".to_string()));
    assert_eq!(session.phase(), Phase::Interrupted);
    let mut expected = vec![Action::Send("Failed to write file: disk full".to_string())];
    expected.extend(removals_unix());
    expected.push(Action::Close);
    assert_eq!(actions, expected);
}

#[test]
fn compile_failure_sends_the_diagnostics_once_and_cleans_up() {
    let (mut session, _) = open(Transport::EventStream, Platform::Unix, "fn main( {}");
    session.step(Event::Stored);
    let diagnostics = "error: mismatched closing delimiter: `}`\n --> temp.rs:1:8\n";
    let actions = session.step(Event::CompilerExited {
        success: false,
        diagnostics: diagnostics.as_bytes().to_vec(),
    });
    assert_eq!(session.phase(), Phase::CompileFailed);
    assert!(session.is_finished());
    let mut expected = vec![Action::Send(diagnostics.to_string())];
    expected.extend(removals_unix());
    expected.push(Action::Close);
    assert_eq!(actions, expected);
    assert!(!actions.iter().any(|action| matches!(action, Action::Launch { .. })));
}

#[test]
fn syntax_error_yields_one_event_and_no_run_phase() {
    let (mut session, _) = open(Transport::EventStream, Platform::Unix, "fn main() { let }");
    let mut all = session.step(Event::Stored);
    all.extend(session.step(Event::CompilerExited {
        success: false,
        diagnostics: b"error: expected pattern, found `}`".to_vec(),
    }));
    all.extend(session.step(Event::Spawned));
    all.extend(session.step(Event::Output(Pipe::Stdout, b"never\n".to_vec())));
    assert_eq!(sent(&all), vec!["error: expected pattern, found `}`".to_string()]);
    assert_eq!(session.phase(), Phase::CompileFailed);
}

#[test]
fn compile_failure_on_windows_removes_the_debug_symbols_too() {
    let (mut session, _) = open(Transport::Duplex, Platform::Windows, "x");
    session.step(Event::Stored);
    let actions =
        session.step(Event::CompilerExited { success: false, diagnostics: b"bad".to_vec() });
    assert_eq!(
        actions,
        vec![
            Action::Send("bad".to_string()),
            Action::Remove(format!("temp/temp_{}.rs", ID)),
            Action::Remove(format!("temp/temp_{}.exe", ID)),
            Action::Remove(format!("temp/temp_{}.pdb", ID)),
            Action::Close,
        ]
    );
}

#[test]
fn diagnostics_that_are_not_utf8_are_sent_with_replacement_characters() {
    let (mut session, _) = open(Transport::Duplex, Platform::Unix, "x");
    session.step(Event::Stored);
    let actions = session
        .step(Event::CompilerExited { success: false, diagnostics: vec![b'a', 0xff, b'b'] });
    assert_eq!(sent(&actions), vec!["a\u{fffd}b".to_string()]);
}

#[test]
fn missing_compiler_is_reported_with_its_own_words() {
    let (mut session, _) = open(Transport::Duplex, Platform::Unix, "x");
    session.step(Event::Stored);
    let actions = session.step(Event::CompilerUnavailable("No such file".to_string()));
    assert_eq!(session.phase(), Phase::CompileFailed);
    let mut expected = vec![Action::Send("Failed to execute rustc: No such file".to_string())];
    expected.extend(removals_unix());
    expected.push(Action::Close);
    assert_eq!(actions, expected);
}

#[test]
fn spawn_failure_is_reported_and_ends_the_session() {
    let (mut session, _) = open(Transport::Duplex, Platform::Unix, "x");
    session.step(Event::Stored);
    session.step(Event::CompilerExited { success: true, diagnostics: Vec::new() });
    let actions = session.step(Event::SpawnRefused("Permission denied".to_string()));
    assert_eq!(session.phase(), Phase::SpawnFailed);
    let mut expected =
        vec![Action::Send("Failed to spawn process: Permission denied".to_string())];
    expected.extend(removals_unix());
    expected.push(Action::Close);
    assert_eq!(actions, expected);
}

#[test]
fn hello_program_on_event_stream_yields_one_event_then_closes() {
    let (mut session, _) =
        open(Transport::EventStream, Platform::Unix, "fn main(){println!(\"hi\");}");
    let mut all = Vec::new();
    all.extend(session.step(Event::Stored));
    all.extend(session.step(Event::CompilerExited { success: true, diagnostics: Vec::new() }));
    all.extend(session.step(Event::Spawned));
    all.extend(session.step(Event::Output(Pipe::Stdout, b"hi\n".to_vec())));
    all.extend(session.step(Event::OutputEnded(Pipe::Stdout)));
    all.extend(session.step(Event::OutputEnded(Pipe::Stderr)));
    assert_eq!(session.phase(), Phase::Running);
    all.extend(session.step(Event::ChildExited));
    assert_eq!(session.phase(), Phase::Completed);
    assert_eq!(sent(&all), vec!["hi".to_string()]);
    assert_eq!(all.last(), Some(&Action::Close));
    let tail = &all[all.len() - 3..];
    let mut expected = removals_unix();
    expected.push(Action::Close);
    assert_eq!(tail, &expected[..]);
    assert!(!all.iter().any(|action| matches!(action, Action::Reap)));
}

#[test]
fn echo_program_on_duplex_returns_the_input_before_exit() {
    let mut session = running(Transport::Duplex);
    let fed = session.step(Event::Input("abc".to_string()));
    assert_eq!(fed, vec![Action::Feed("abc\n".to_string())]);
    let echoed = session.step(Event::Output(Pipe::Stdout, b"abc\n".to_vec()));
    assert_eq!(echoed, vec![Action::Send("abc\n".to_string())]);
    assert_eq!(session.phase(), Phase::Running);
    assert!(!session.child_exited());
}

#[test]
fn input_that_ends_in_a_terminator_is_fed_unchanged() {
    let mut session = running(Transport::Duplex);
    assert_eq!(
        session.step(Event::Input("42\n".to_string())),
        vec![Action::Feed("42\n".to_string())]
    );
    assert_eq!(session.step(Event::Input(String::new())), vec![Action::Feed("\n".to_string())]);
    assert_eq!(
        session.step(Event::Input("caf\u{e9}".to_string())),
        vec![Action::Feed("caf\u{e9}\n".to_string())]
    );
}

#[test]
fn input_before_the_child_runs_is_held_and_fed_in_order_at_the_start() {
    let (mut session, _) = open(Transport::Duplex, Platform::Unix, "x");
    assert_eq!(session.step(Event::Input("first".to_string())), Vec::new());
    session.step(Event::Stored);
    assert_eq!(session.step(Event::Input("second\n".to_string())), Vec::new());
    session.step(Event::CompilerExited { success: true, diagnostics: Vec::new() });
    assert_eq!(session.step(Event::Input("third".to_string())), Vec::new());
    assert_eq!(session.held_input(), 3);
    let actions = session.step(Event::Spawned);
    assert_eq!(
        actions,
        vec![
            Action::Feed("first\n".to_string()),
            Action::Feed("second\n".to_string()),
            Action::Feed("third\n".to_string()),
        ]
    );
    assert_eq!(session.held_input(), 0);
    assert_eq!(session.phase(), Phase::Running);
}

#[test]
fn event_stream_has_no_input() {
    let mut session = running(Transport::EventStream);
    assert_eq!(session.step(Event::Input("abc".to_string())), Vec::new());
    assert_eq!(session.step(Event::CloseRequested), Vec::new());
    assert_eq!(session.step(Event::FeedFailed("broken pipe".to_string())), Vec::new());
    assert_eq!(session.phase(), Phase::Running);
}

#[test]
fn duplex_chunks_are_forwarded_one_message_each_in_order() {
    let mut session = running(Transport::Duplex);
    let mut all = Vec::new();
    all.extend(session.step(Event::Output(Pipe::Stdout, b"one ".to_vec())));
    all.extend(session.step(Event::Output(Pipe::Stderr, b"warn".to_vec())));
    all.extend(session.step(Event::Output(Pipe::Stdout, b"two\nthree".to_vec())));
    assert_eq!(
        all,
        vec![
            Action::Send("one ".to_string()),
            Action::Send("warn".to_string()),
            Action::Send("two\nthree".to_string()),
        ]
    );
}

#[test]
fn duplex_chunk_that_is_not_utf8_is_forwarded_with_replacement_characters() {
    let mut session = running(Transport::Duplex);
    let actions = session.step(Event::Output(Pipe::Stdout, vec![0xe2, 0x82]));
    assert_eq!(actions, vec![Action::Send("\u{fffd}".to_string())]);
    let actions = session.step(Event::Output(Pipe::Stdout, vec![b'o', b'k', 0x80]));
    assert_eq!(actions, vec![Action::Send("ok\u{fffd}".to_string())]);
}

#[test]
fn end_of_one_pipe_stops_only_that_pipe() {
    let mut session = running(Transport::Duplex);
    assert_eq!(session.step(Event::OutputEnded(Pipe::Stderr)), Vec::new());
    assert!(!session.pipe_open(Pipe::Stderr));
    assert!(session.pipe_open(Pipe::Stdout));
    assert_eq!(
        session.step(Event::Output(Pipe::Stdout, b"still here".to_vec())),
        vec![Action::Send("still here".to_string())]
    );
    assert_eq!(session.step(Event::Output(Pipe::Stderr, b"ghost".to_vec())), Vec::new());
    assert_eq!(session.phase(), Phase::Running);
}

#[test]
fn session_completes_when_exit_comes_last() {
    let mut session = running(Transport::Duplex);
    session.step(Event::OutputEnded(Pipe::Stdout));
    session.step(Event::OutputEnded(Pipe::Stderr));
    assert_eq!(session.phase(), Phase::Running);
    let actions = session.step(Event::ChildExited);
    assert_eq!(session.phase(), Phase::Completed);
    let mut expected = removals_unix();
    expected.push(Action::Close);
    assert_eq!(actions, expected);
}

#[test]
fn session_completes_when_a_pipe_ends_last() {
    let mut session = running(Transport::Duplex);
    assert_eq!(session.step(Event::ChildExited), Vec::new());
    assert!(session.child_exited());
    assert_eq!(session.step(Event::OutputEnded(Pipe::Stderr)), Vec::new());
    assert_eq!(
        session.step(Event::Output(Pipe::Stdout, b"last words".to_vec())),
        vec![Action::Send("last words".to_string())]
    );
    let actions = session.step(Event::OutputEnded(Pipe::Stdout));
    assert_eq!(session.phase(), Phase::Completed);
    let mut expected = removals_unix();
    expected.push(Action::Close);
    assert_eq!(actions, expected);
}

#[test]
fn input_after_the_child_exited_is_dropped() {
    let mut session = running(Transport::Duplex);
    session.step(Event::ChildExited);
    assert_eq!(session.step(Event::Input("late".to_string())), Vec::new());
    assert_eq!(session.step(Event::FeedFailed("broken pipe".to_string())), Vec::new());
    assert_eq!(session.phase(), Phase::Running);
}

#[test]
fn disconnect_while_running_reaps_the_child_and_cleans_up() {
    let mut session = running(Transport::Duplex);
    let actions = session.step(Event::TransportLost);
    assert_eq!(session.phase(), Phase::Interrupted);
    let mut expected = vec![Action::Reap];
    expected.extend(removals_unix());
    expected.push(Action::Close);
    assert_eq!(actions, expected);
}

#[test]
fn disconnect_after_exit_needs_no_reaping() {
    let mut session = running(Transport::Duplex);
    session.step(Event::ChildExited);
    let actions = session.step(Event::TransportLost);
    assert_eq!(session.phase(), Phase::Interrupted);
    let mut expected = removals_unix();
    expected.push(Action::Close);
    assert_eq!(actions, expected);
}

#[test]
fn close_request_ends_a_duplex_session() {
    let mut session = running(Transport::Duplex);
    let actions = session.step(Event::CloseRequested);
    assert_eq!(session.phase(), Phase::Interrupted);
    assert_eq!(actions.first(), Some(&Action::Reap));
    assert_eq!(actions.last(), Some(&Action::Close));
}

#[test]
fn failed_delivery_ends_the_session_without_a_notice() {
    let mut session = running(Transport::EventStream);
    let actions = session.step(Event::SendFailed);
    assert_eq!(session.phase(), Phase::Interrupted);
    assert_eq!(sent(&actions), Vec::<String>::new());
    let mut expected = vec![Action::Reap];
    expected.extend(removals_unix());
    expected.push(Action::Close);
    assert_eq!(actions, expected);
}

#[test]
fn disconnect_during_compilation_ends_the_session() {
    let (mut session, _) = open(Transport::Duplex, Platform::Unix, "x");
    session.step(Event::Stored);
    let actions = session.step(Event::TransportLost);
    assert_eq!(session.phase(), Phase::Interrupted);
    let mut expected = removals_unix();
    expected.push(Action::Close);
    assert_eq!(actions, expected);
    assert_eq!(
        session.step(Event::CompilerExited { success: true, diagnostics: Vec::new() }),
        Vec::new()
    );
}

#[test]
fn child_started_after_the_end_is_still_reaped() {
    let (mut session, _) = open(Transport::Duplex, Platform::Unix, "x");
    session.step(Event::Stored);
    session.step(Event::CompilerExited { success: true, diagnostics: Vec::new() });
    session.step(Event::TransportLost);
    assert_eq!(session.step(Event::Spawned), vec![Action::Reap]);
    assert_eq!(session.phase(), Phase::Interrupted);
}

#[test]
fn read_fault_is_reported_and_interrupts() {
    let mut session = running(Transport::Duplex);
    let actions = session.step(Event::OutputFault(Pipe::Stdout, "bad descriptor".to_string()));
    assert_eq!(session.phase(), Phase::Interrupted);
    let mut expected = vec![
        Action::Send("Error reading output: bad descriptor".to_string()),
        Action::Reap,
    ];
    expected.extend(removals_unix());
    expected.push(Action::Close);
    assert_eq!(actions, expected);
}

#[test]
fn write_fault_is_reported_and_interrupts() {
    let mut session = running(Transport::Duplex);
    let actions = session.step(Event::FeedFailed("broken pipe".to_string()));
    assert_eq!(session.phase(), Phase::Interrupted);
    let mut expected =
        vec![Action::Send("Failed to forward input: broken pipe".to_string()), Action::Reap];
    expected.extend(removals_unix());
    expected.push(Action::Close);
    assert_eq!(actions, expected);
}

#[test]
fn finished_session_hears_nothing_more() {
    let mut session = running(Transport::Duplex);
    session.step(Event::TransportLost);
    for event in [
        Event::Stored,
        Event::StoreFailed("x".to_string()),
        Event::CompilerExited { success: false, diagnostics: b"x".to_vec() },
        Event::CompilerUnavailable("x".to_string()),
        Event::SpawnRefused("x".to_string()),
        Event::Output(Pipe::Stdout, b"x".to_vec()),
        Event::OutputEnded(Pipe::Stdout),
        Event::OutputFault(Pipe::Stderr, "x".to_string()),
        Event::ChildExited,
        Event::Input("x".to_string()),
        Event::CloseRequested,
        Event::FeedFailed("x".to_string()),
        Event::SendFailed,
        Event::TransportLost,
    ] {
        assert_eq!(session.step(event), Vec::new());
        assert_eq!(session.phase(), Phase::Interrupted);
    }
}

#[test]
fn teardown_happens_once_on_every_path() {
    let endings = [
        Event::TransportLost,
        Event::SendFailed,
        Event::CloseRequested,
        Event::OutputFault(Pipe::Stdout, "x".to_string()),
        Event::FeedFailed("x".to_string()),
    ];
    for ending in endings {
        let mut session = running(Transport::Duplex);
        let mut all = session.step(Event::Output(Pipe::Stdout, b"x".to_vec()));
        all.extend(session.step(ending.clone()));
        all.extend(session.step(ending));
        all.extend(session.step(Event::ChildExited));
        let removed: Vec<Action> =
            all.iter().filter(|a| matches!(a, Action::Remove(_))).cloned().collect();
        assert_eq!(removed, removals_unix());
        assert_eq!(all.iter().filter(|a| matches!(a, Action::Close)).count(), 1);
        assert!(session.is_finished());
    }
}

#[test]
fn events_out_of_turn_are_ignored() {
    let (mut session, _) = open(Transport::Duplex, Platform::Unix, "x");
    assert_eq!(session.step(Event::Spawned), Vec::new());
    assert_eq!(
        session.step(Event::CompilerExited { success: true, diagnostics: Vec::new() }),
        Vec::new()
    );
    assert_eq!(session.step(Event::Output(Pipe::Stdout, b"x".to_vec())), Vec::new());
    assert_eq!(session.step(Event::ChildExited), Vec::new());
    assert_eq!(session.phase(), Phase::Received);
}

#[test]
fn fresh_sessions_get_wellformed_and_different_identifiers() {
    let request = ExecutionRequest { source_text: "x".to_string() };
    let (a, first) = Session::begin(Transport::Duplex, Platform::Unix, request.clone());
    let (b, _) = Session::begin(Transport::Duplex, Platform::Unix, request);
    assert_eq!(
        first,
        vec![
            Action::EnsureDirectory("temp".to_string()),
            Action::Store {
                path: format!("temp/temp_{}.rs", a.identifier()),
                text: "x".to_string()
            },
        ]
    );
    assert!(code_runner::workspace::check_identifier(&a.identifier()));
    assert!(code_runner::workspace::check_identifier(&b.identifier()));
    assert_ne!(a.identifier(), b.identifier());
    assert_eq!(a.identifier().len(), 36);
}

#[test]
fn compiler_run_is_judged_by_its_exit() {
    let workspace = Workspace::adopt(ID.to_string(), Platform::Windows).unwrap();
    assert_eq!(
        code_runner::session::compile_result(&workspace, Ok((true, b"warning: unused".to_vec()))),
        CompileOutcome::Success(format!("temp/temp_{}.exe", ID))
    );
    assert_eq!(
        code_runner::session::compile_result(&workspace, Ok((false, b"error[E0308]".to_vec()))),
        CompileOutcome::Failure("error[E0308]".to_string())
    );
    assert_eq!(
        code_runner::session::compile_result(&workspace, Ok((false, Vec::new()))),
        CompileOutcome::Failure(String::new())
    );
    assert_eq!(
        code_runner::session::compile_result(&workspace, Err("not found".to_string())),
        CompileOutcome::Failure("Failed to execute rustc: not found".to_string())
    );
}

#[test]
fn teardown_names_each_scratch_file_once() {
    let workspace = Workspace::adopt(ID.to_string(), Platform::Unix).unwrap();
    assert_eq!(code_runner::session::teardown(&workspace), removals_unix());
    assert_eq!(code_runner::session::teardown(&workspace), removals_unix());
}

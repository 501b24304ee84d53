use code_runner::bridge::terminate_line;
use code_runner::bridge::Inbound;
use code_runner::bridge::Pipe;
use code_runner::bridge::CHUNK_SIZE;
use code_runner::protocol::failure_message;
use code_runner::protocol::Event;
use code_runner::protocol::ExecutionRequest;
use code_runner::protocol::FailureKind;
use code_runner::protocol::Phase;

#[test]
fn line_without_terminator_gets_one() {
    assert_eq!(terminate_line("abc".to_string()), "abc\n");
    assert_eq!(terminate_line(String::new()), "\n");
    assert_eq!(terminate_line("a\nb".to_string()), "a\nb\n");
    assert_eq!(terminate_line("abc\r".to_string()), "abc\r\n");
    assert_eq!(terminate_line("na\u{ef}ve \u{1f980}".to_string()), "na\u{ef}ve \u{1f980}\n");
}

#[test]
fn line_with_terminator_is_kept() {
    assert_eq!(terminate_line("abc\n".to_string()), "abc\n");
    assert_eq!(terminate_line("\n".to_string()), "\n");
    assert_eq!(terminate_line("abc\n\n".to_string()), "abc\n\n");
    assert_eq!(terminate_line("abc\r\n".to_string()), "abc\r\n");
}

#[test]
fn terminating_twice_is_terminating_once() {
    for text in ["", "x", "x\n", "one\ntwo", "\u{e9}"] {
        let once = terminate_line(text.to_string());
        assert_eq!(terminate_line(once.clone()), once);
        assert!(once.ends_with('\n'));
        assert!(once.starts_with(text));
    }
}

#[test]
fn chunk_size_is_one_kibibyte() {
    assert_eq!(CHUNK_SIZE, 1024);
}

#[test]
fn first_message_with_an_envelope_carries_its_code() {
    let message = Inbound::Text("{\"code\":\"fn main() {}\"}".to_string());
    assert_eq!(
        ExecutionRequest::of_first_message(message, Some("fn main() {}".to_string())),
        Some(ExecutionRequest { source_text: "fn main() {}".to_string() })
    );
}

#[test]
fn first_message_without_an_envelope_is_the_source() {
    let message = Inbound::Text("fn main() {}".to_string());
    assert_eq!(
        ExecutionRequest::of_first_message(message, None),
        Some(ExecutionRequest { source_text: "fn main() {}".to_string() })
    );
}

#[test]
fn first_message_that_is_no_text_carries_no_source() {
    assert_eq!(ExecutionRequest::of_first_message(Inbound::Close, None), None);
    assert_eq!(ExecutionRequest::of_first_message(Inbound::Other, None), None);
    assert_eq!(ExecutionRequest::of_first_message(Inbound::Other, Some("x".to_string())), None);
}

#[test]
fn read_of_no_bytes_is_the_end_of_the_pipe() {
    assert_eq!(Event::of_read(Pipe::Stdout, Ok(Vec::new())), Event::OutputEnded(Pipe::Stdout));
    assert_eq!(Event::of_read(Pipe::Stderr, Ok(Vec::new())), Event::OutputEnded(Pipe::Stderr));
}

#[test]
fn read_of_bytes_is_output() {
    assert_eq!(
        Event::of_read(Pipe::Stdout, Ok(vec![104, 105])),
        Event::Output(Pipe::Stdout, vec![104, 105])
    );
}

#[test]
fn failed_read_is_a_fault() {
    assert_eq!(
        Event::of_read(Pipe::Stderr, Err("interrupted".to_string())),
        Event::OutputFault(Pipe::Stderr, "interrupted".to_string())
    );
}

#[test]
fn inbound_messages_become_events() {
    assert_eq!(
        Event::of_inbound(Inbound::Text("abc".to_string())),
        Some(Event::Input("abc".to_string()))
    );
    assert_eq!(Event::of_inbound(Inbound::Close), Some(Event::CloseRequested));
    assert_eq!(Event::of_inbound(Inbound::Other), None);
}

#[test]
fn failure_messages_name_what_failed() {
    assert_eq!(failure_message(FailureKind::Io, "disk full"), "Failed to write file: disk full");
    assert_eq!(
        failure_message(FailureKind::CompilerLaunch, "not found"),
        "Failed to execute rustc: not found"
    );
    assert_eq!(failure_message(FailureKind::Spawn, "denied"), "Failed to spawn process: denied");
    assert_eq!(failure_message(FailureKind::Stream, "reset"), "Error reading output: reset");
    assert_eq!(failure_message(FailureKind::Feed, "closed"), "Failed to forward input: closed");
    assert_eq!(failure_message(FailureKind::Io, ""), "Failed to write file: ");
}

#[test]
fn terminal_phases_are_the_four_endings() {
    for phase in [Phase::CompileFailed, Phase::SpawnFailed, Phase::Completed, Phase::Interrupted] {
        assert!(phase.terminal());
    }
    for phase in [
        Phase::Received,
        Phase::SourceWritten,
        Phase::Compiling,
        Phase::CompileSucceeded,
        Phase::Spawning,
        Phase::Running,
    ] {
        assert!(!phase.terminal());
    }
}

#[test]
fn course_passes_the_milestones() {
    assert_eq!(
        Phase::Received.course(Phase::Compiling),
        vec![Phase::SourceWritten, Phase::Compiling]
    );
    assert_eq!(
        Phase::Compiling.course(Phase::Spawning),
        vec![Phase::CompileSucceeded, Phase::Spawning]
    );
    assert_eq!(Phase::Compiling.course(Phase::CompileFailed), vec![Phase::CompileFailed]);
    assert_eq!(Phase::Spawning.course(Phase::Running), vec![Phase::Running]);
    assert_eq!(Phase::Running.course(Phase::Completed), vec![Phase::Completed]);
    assert_eq!(Phase::Running.course(Phase::Interrupted), vec![Phase::Interrupted]);
    assert_eq!(Phase::Running.course(Phase::Running), Vec::new());
}

use zellij_client::instruction::{ClientInstruction, ServerInstruction, TerminalSize};
use zellij_client::orchestrator::{run_session, Effect, LoopState, Orchestrator};
use zellij_client::terminal::{error_message, goodbye_message};

fn size() -> TerminalSize {
    TerminalSize { rows: 24, cols: 80 }
}

fn goodbye_24() -> String {
    "\u{1b}[24;1H\n\u{1b}[?1049l\u{1b}[m\u{1b}[?25hBye from Zellij!\n".to_string()
}

fn teardown_24() -> Vec<Effect> {
    vec![
        Effect::SendToServer(ServerInstruction::ClientExit),
        Effect::JoinRouter,
        Effect::UnsetRawMode,
        Effect::Write(goodbye_24()),
        Effect::Flush,
    ]
}

fn client_exits(effects: &[Effect]) -> usize {
    effects
        .iter()
        .filter(|e| **e == Effect::SendToServer(ServerInstruction::ClientExit))
        .count()
}

#[test]
fn render_unblock_exit_says_goodbye() {
    let out = run_session(
        size(),
        vec![
            ClientInstruction::Render(Some("hello".to_string())),
            ClientInstruction::UnblockInputThread,
            ClientInstruction::Exit,
        ],
    );
    let mut expected = vec![
        Effect::Write("hello".to_string()),
        Effect::Flush,
        Effect::UnblockInput,
    ];
    expected.extend(teardown_24());
    assert_eq!(out.effects, expected);
    assert_eq!(out.exit_code, Some(0));
    assert_eq!(out.consumed, 3);
    assert_eq!(client_exits(&out.effects), 1);
}

#[test]
fn error_restores_terminal_and_exits_with_one() {
    let out = run_session(size(), vec![ClientInstruction::Error("panic at router".to_string())]);
    assert_eq!(
        out.effects,
        vec![
            Effect::SendToServer(ServerInstruction::ClientExit),
            Effect::UnsetRawMode,
            Effect::Write("\u{1b}[24;1H\n\u{1b}[?1049lpanic at router".to_string()),
            Effect::ExitProcess(1),
        ]
    );
    assert_eq!(out.exit_code, Some(1));
    assert!(!out
        .effects
        .iter()
        .any(|e| matches!(e, Effect::Write(t) if t.contains("Bye from Zellij!"))));
}

#[test]
fn end_of_output_ends_without_writing() {
    let out = run_session(size(), vec![ClientInstruction::Render(None)]);
    assert_eq!(out.effects, teardown_24());
    assert_eq!(out.exit_code, Some(0));
}

#[test]
fn renders_reach_terminal_in_order() {
    let out = run_session(
        size(),
        vec![
            ClientInstruction::Render(Some("a".to_string())),
            ClientInstruction::Render(Some("b".to_string())),
        ],
    );
    assert_eq!(
        out.effects,
        vec![
            Effect::Write("a".to_string()),
            Effect::Flush,
            Effect::Write("b".to_string()),
            Effect::Flush,
        ]
    );
    assert_eq!(out.exit_code, None);
}

#[test]
fn many_unblocks_keep_running() {
    let out = run_session(size(), vec![ClientInstruction::UnblockInputThread; 5]);
    assert_eq!(out.effects, vec![Effect::UnblockInput; 5]);
    assert_eq!(out.exit_code, None);
    assert_eq!(out.consumed, 5);
}

#[test]
fn error_after_renders_still_exits_with_one() {
    let out = run_session(
        size(),
        vec![
            ClientInstruction::Render(Some("x".to_string())),
            ClientInstruction::UnblockInputThread,
            ClientInstruction::Error("boom".to_string()),
            ClientInstruction::Exit,
        ],
    );
    assert_eq!(out.exit_code, Some(1));
    assert_eq!(out.consumed, 3);
    assert_eq!(client_exits(&out.effects), 1);
    assert_eq!(out.effects.last(), Some(&Effect::ExitProcess(1)));
}

#[test]
fn instructions_after_exit_are_not_consumed() {
    let out = run_session(
        size(),
        vec![
            ClientInstruction::Exit,
            ClientInstruction::Render(Some("late".to_string())),
            ClientInstruction::Error("late".to_string()),
        ],
    );
    assert_eq!(out.effects, teardown_24());
    assert_eq!(out.exit_code, Some(0));
    assert_eq!(out.consumed, 1);
}

#[test]
fn empty_session_keeps_waiting() {
    let out = run_session(size(), vec![]);
    assert!(out.effects.is_empty());
    assert_eq!(out.exit_code, None);
}

#[test]
fn orchestrator_handles_one_at_a_time() {
    let mut o = Orchestrator::new(TerminalSize { rows: 7, cols: 3 });
    assert!(!o.is_done());
    assert_eq!(
        o.handshake(),
        vec![Effect::SendToServer(ServerInstruction::NewClient(TerminalSize { rows: 7, cols: 3 }))]
    );
    assert_eq!(o.handle(ClientInstruction::UnblockInputThread), vec![Effect::UnblockInput]);
    assert_eq!(o.state, LoopState::Running);
    let last = o.handle(ClientInstruction::Exit);
    assert_eq!(last[3], Effect::Write(goodbye_message(7)));
    assert_eq!(o.state, LoopState::Terminating(0));
    assert!(o.is_done());
}

#[test]
fn messages_position_at_last_row() {
    assert_eq!(goodbye_message(24), goodbye_24());
    assert_eq!(
        error_message(120, &"oops".to_string()),
        "\u{1b}[120;1H\n\u{1b}[?1049loops"
    );
    assert_eq!(error_message(0, &String::new()), "\u{1b}[0;1H\n\u{1b}[?1049l");
}

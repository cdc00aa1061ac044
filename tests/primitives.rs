use zellij_client::channel::InstructionChannel;
use zellij_client::cli::CliArgs;
use zellij_client::gate::InputGate;
use zellij_client::instruction::{
    failure_instruction, ClientContext, ClientInstruction, ErrorContext, TerminalSize,
};
use zellij_client::orchestrator::run_session;
use zellij_client::router::route_message;
use zellij_client::terminal::{decimal_string, enter_alternate_screen};

#[test]
fn full_channel_hands_item_back() {
    let mut ch: InstructionChannel<u32> = InstructionChannel::new(2);
    assert_eq!(ch.try_send(1), Ok(()));
    assert_eq!(ch.try_send(2), Ok(()));
    assert!(ch.is_full());
    assert_eq!(ch.try_send(3), Err(3));
    assert_eq!(ch.len(), 2);
    assert_eq!(ch.try_recv(), Some(1));
    assert_eq!(ch.try_send(3), Ok(()));
    assert_eq!(ch.try_recv(), Some(2));
    assert_eq!(ch.try_recv(), Some(3));
    assert_eq!(ch.try_recv(), None);
    assert_eq!(ch.capacity(), 2);
}

#[test]
fn channel_keeps_send_order() {
    let mut ch: InstructionChannel<ClientInstruction> = InstructionChannel::new(500);
    for k in 0..500 {
        assert!(ch.try_send(ClientInstruction::Render(Some(k.to_string()))).is_ok());
    }
    assert!(ch.try_send(ClientInstruction::Exit).is_err());
    for k in 0..500 {
        assert_eq!(ch.try_recv(), Some(ClientInstruction::Render(Some(k.to_string()))));
    }
}

#[test]
fn gate_release_is_idempotent() {
    let mut g = InputGate::new();
    assert!(!g.is_blocked());
    g.block_input_thread();
    assert!(g.is_blocked());
    g.unblock_input_thread();
    g.unblock_input_thread();
    g.unblock_input_thread();
    assert!(!g.is_blocked());
}

#[test]
fn router_doubles_exit() {
    let (out, done) = route_message(Some((ClientInstruction::Exit, ErrorContext::new())));
    assert!(done);
    assert_eq!(out.len(), 2);
    assert_eq!(out[0].0, ClientInstruction::Exit);
    assert_eq!(out[1].0, ClientInstruction::Exit);
    assert_eq!(out[0].1.len(), 1);
    assert_eq!(out[0].1.call(0), ClientContext::Exit);
}

#[test]
fn router_sends_exit_when_connection_closes() {
    let (out, done) = route_message(None);
    assert!(done);
    assert_eq!(out.len(), 1);
    assert_eq!(out[0].0, ClientInstruction::Exit);
}

#[test]
fn router_forwards_with_trail() {
    let mut ctx = ErrorContext::new();
    ctx.add_call(ClientContext::Render);
    let (out, done) = route_message(Some((ClientInstruction::Render(Some("hi".to_string())), ctx)));
    assert!(!done);
    assert_eq!(out.len(), 1);
    assert_eq!(out[0].0, ClientInstruction::Render(Some("hi".to_string())));
    assert_eq!(out[0].1.len(), 2);
    assert_eq!(out[0].1.call(0), ClientContext::Render);
    assert_eq!(out[0].1.call(1), ClientContext::Render);
    let (out, done) = route_message(Some((ClientInstruction::Error("e".to_string()), ErrorContext::new())));
    assert!(!done);
    assert_eq!(out[0].1.call(0), ClientContext::Error);
}

#[test]
fn terminal_instructions() {
    assert!(ClientInstruction::Exit.is_terminal());
    assert!(ClientInstruction::Render(None).is_terminal());
    assert!(ClientInstruction::Error(String::new()).is_terminal());
    assert!(!ClientInstruction::Render(Some(String::new())).is_terminal());
    assert!(!ClientInstruction::UnblockInputThread.is_terminal());
    assert_eq!(
        ClientContext::from_instruction(&ClientInstruction::UnblockInputThread),
        ClientContext::UnblockInputThread
    );
}

#[test]
fn failure_becomes_error() {
    assert_eq!(
        failure_instruction("thread panicked".to_string()),
        ClientInstruction::Error("thread panicked".to_string())
    );
}

#[test]
fn decimal_digits() {
    assert_eq!(decimal_string(0), "0");
    assert_eq!(decimal_string(9), "9");
    assert_eq!(decimal_string(10), "10");
    assert_eq!(decimal_string(4096), "4096");
    assert_eq!(decimal_string(usize::MAX), usize::MAX.to_string());
    assert_eq!(enter_alternate_screen(), "\u{1b}[?1049h");
}

#[test]
fn default_cli_args() {
    let a = CliArgs::default();
    assert_eq!(a.max_panes, None);
    assert!(a.layout.is_none());
    assert!(a.config.is_none());
    assert!(!a.debug);
}

#[test]
fn router_exit_stops_main_loop() {
    let mut instrs = vec![
        ClientInstruction::Render(Some("a".to_string())),
        ClientInstruction::UnblockInputThread,
    ];
    let (out, _) = route_message(None);
    instrs.extend(out.into_iter().map(|(i, _)| i));
    let session = run_session(TerminalSize { rows: 5, cols: 5 }, instrs);
    assert_eq!(session.exit_code, Some(0));
    assert_eq!(session.consumed, 3);
}

use vstd::prelude::*;

use crate::instruction::{is_terminal, ClientInstruction, InstructionView, ServerInstruction, TerminalSize};
use crate::terminal::{error_message, error_text, goodbye_message, goodbye_text};

verus! {

/// A side effect that the main loop asks of the terminal, the server connection or
/// the process. Only the main loop writes to the terminal.
#[derive(Clone, Debug, PartialEq, Eq)]
pub enum Effect {
    /// Write this text verbatim to the terminal.
    Write(String),
    /// Flush the terminal writer.
    Flush,
    /// Open the latch that holds back the input reader.
    UnblockInput,
    /// Send this instruction to the server.
    SendToServer(ServerInstruction),
    /// Take the terminal out of raw mode.
    UnsetRawMode,
    /// Wait for the unit that reads from the server to finish.
    JoinRouter,
    /// End the process at once with this exit code.
    ExitProcess(i32),
}

/// The view of an effect: written text as a character sequence.
pub enum EffectView {
    Write(Seq<char>),
    Flush,
    UnblockInput,
    SendToServer(ServerInstruction),
    UnsetRawMode,
    JoinRouter,
    ExitProcess(i32),
}

impl View for Effect {
    type V = EffectView;

    open spec fn view(&self) -> EffectView {
        match self {
            Effect::Write(t) => EffectView::Write(t@),
            Effect::Flush => EffectView::Flush,
            Effect::UnblockInput => EffectView::UnblockInput,
            Effect::SendToServer(s) => EffectView::SendToServer(*s),
            Effect::UnsetRawMode => EffectView::UnsetRawMode,
            Effect::JoinRouter => EffectView::JoinRouter,
            Effect::ExitProcess(c) => EffectView::ExitProcess(*c),
        }
    }
}

pub open spec fn effects_view(v: Seq<Effect>) -> Seq<EffectView> {
    v.map_values(|e: Effect| e@)
}

/// The state of the main loop: running, or ended with an exit code.
#[derive(Clone, Copy, Debug, PartialEq, Eq)]
pub enum LoopState {
    Running,
    Terminating(i32),
}

/// The normal teardown: tell the server, wait for the router, restore the terminal
/// and say goodbye.
pub open spec fn teardown_effects(rows: nat) -> Seq<EffectView> {
    seq![
        EffectView::SendToServer(ServerInstruction::ClientExit),
        EffectView::JoinRouter,
        EffectView::UnsetRawMode,
        EffectView::Write(goodbye_text(rows)),
        EffectView::Flush,
    ]
}

/// The error path: tell the server, restore the terminal, show the message and end
/// the process with code 1.
pub open spec fn error_effects(rows: nat, msg: Seq<char>) -> Seq<EffectView> {
    seq![
        EffectView::SendToServer(ServerInstruction::ClientExit),
        EffectView::UnsetRawMode,
        EffectView::Write(error_text(rows, msg)),
        EffectView::ExitProcess(1),
    ]
}

/// What the running main loop does on one instruction.
pub open spec fn step_effects(rows: nat, i: InstructionView) -> Seq<EffectView> {
    match i {
        InstructionView::Render(Some(t)) => seq![EffectView::Write(t), EffectView::Flush],
        InstructionView::Render(None) => teardown_effects(rows),
        InstructionView::UnblockInputThread => seq![EffectView::UnblockInput],
        InstructionView::Exit => teardown_effects(rows),
        InstructionView::Error(m) => error_effects(rows, m),
    }
}

/// The state of the main loop after it handled one instruction while running.
pub open spec fn next_state(i: InstructionView) -> LoopState {
    match i {
        InstructionView::Render(None) => LoopState::Terminating(0),
        InstructionView::Exit => LoopState::Terminating(0),
        InstructionView::Error(_) => LoopState::Terminating(1),
        _ => LoopState::Running,
    }
}

/// The main loop fed with `instrs` from position `k` on: what it does, and the exit
/// code once it stopped (`None` while it still waits for more).
pub open spec fn session_from(rows: nat, instrs: Seq<InstructionView>, k: int) -> (Seq<EffectView>, Option<i32>)
    decreases instrs.len() - k,
{
    if k < 0 || k >= instrs.len() {
        (Seq::empty(), None)
    } else {
        let i = instrs[k];
        match next_state(i) {
            LoopState::Terminating(code) => (step_effects(rows, i), Some(code)),
            LoopState::Running => {
                let rest = session_from(rows, instrs, k + 1);
                (step_effects(rows, i) + rest.0, rest.1)
            },
        }
    }
}

/// How many of `instrs`, from position `k` on, the loop takes before it stops or
/// they run out.
pub open spec fn consumed_from(instrs: Seq<InstructionView>, k: int) -> nat
    decreases instrs.len() - k,
{
    if k < 0 || k >= instrs.len() {
        0
    } else if is_terminal(instrs[k]) {
        1
    } else {
        1 + consumed_from(instrs, k + 1)
    }
}

pub open spec fn session(rows: nat, instrs: Seq<InstructionView>) -> (Seq<EffectView>, Option<i32>) {
    session_from(rows, instrs, 0)
}

/// The client's main loop: the single consumer of client instructions, and the only
/// place that writes to the terminal.
pub struct Orchestrator {
    pub size: TerminalSize,
    pub state: LoopState,
}

impl Orchestrator {
    /// A running loop for a terminal of the given size.
    pub fn new(size: TerminalSize) -> (r: Orchestrator)
        ensures
            r.size == size,
            r.state == LoopState::Running,
    {
        Orchestrator { size, state: LoopState::Running }
    }

    /// Whether the loop has stopped.
    pub fn is_done(&self) -> (r: bool)
        ensures
            r == (self.state != LoopState::Running),
    {
        match self.state {
            LoopState::Running => false,
            LoopState::Terminating(_) => true,
        }
    }

    /// The effects that connect the client: announce it to the server with the
    /// terminal's size.
    pub fn handshake(&self) -> (r: Vec<Effect>)
        ensures
            effects_view(r@) == seq![EffectView::SendToServer(ServerInstruction::NewClient(self.size))],
    {
        let mut v: Vec<Effect> = Vec::new();
        v.push(Effect::SendToServer(ServerInstruction::NewClient(self.size)));
        assert(effects_view(v@) =~= seq![EffectView::SendToServer(ServerInstruction::NewClient(self.size))]);
        v
    }

    /// Handles one instruction while running, and returns what is to be done.
    pub fn handle(&mut self, instruction: ClientInstruction) -> (r: Vec<Effect>)
        requires
            old(self).state == LoopState::Running,
        ensures
            final(self).size == old(self).size,
            final(self).state == next_state(instruction@),
            effects_view(r@) == step_effects(old(self).size.rows as nat, instruction@),
    {
        let rows = self.size.rows;
        let mut v: Vec<Effect> = Vec::new();
        match instruction {
            ClientInstruction::Render(Some(text)) => {
                v.push(Effect::Write(text));
                v.push(Effect::Flush);
            },
            ClientInstruction::UnblockInputThread => {
                v.push(Effect::UnblockInput);
            },
            ClientInstruction::Error(msg) => {
                v.push(Effect::SendToServer(ServerInstruction::ClientExit));
                v.push(Effect::UnsetRawMode);
                v.push(Effect::Write(error_message(rows, &msg)));
                v.push(Effect::ExitProcess(1));
                self.state = LoopState::Terminating(1);
            },
            _ => {
                v.push(Effect::SendToServer(ServerInstruction::ClientExit));
                v.push(Effect::JoinRouter);
                v.push(Effect::UnsetRawMode);
                v.push(Effect::Write(goodbye_message(rows)));
                v.push(Effect::Flush);
                self.state = LoopState::Terminating(0);
            },
        }
        assert(effects_view(v@) =~= step_effects(rows as nat, instruction@));
        v
    }
}

/// The outcome of feeding the main loop a sequence of instructions.
pub struct SessionOutcome {
    /// Everything the loop asked for, in order.
    pub effects: Vec<Effect>,
    /// The exit code, once the loop stopped.
    pub exit_code: Option<i32>,
    /// How many instructions the loop consumed.
    pub consumed: usize,
}

/// Feeds `instructions` to a new main loop, in order, until it stops or they run out.
pub fn run_session(size: TerminalSize, instructions: Vec<ClientInstruction>) -> (r: SessionOutcome)
    ensures
        effects_view(r.effects@) == session(size.rows as nat, instructions@.map_values(|i: ClientInstruction| i@)).0,
        r.exit_code == session(size.rows as nat, instructions@.map_values(|i: ClientInstruction| i@)).1,
        r.consumed == consumed_from(instructions@.map_values(|i: ClientInstruction| i@), 0),
{
    let ghost views = instructions@.map_values(|i: ClientInstruction| i@);
    let ghost rows = size.rows as nat;
    let total = instructions.len();
    let ghost n = total as nat;
    let mut orchestrator = Orchestrator::new(size);
    let mut effects: Vec<Effect> = Vec::new();
    let mut rest = instructions;
    let mut consumed: usize = 0;
    while !orchestrator.is_done() && rest.len() > 0
        invariant
            orchestrator.size == size,
            consumed + rest@.len() == n,
            n == total,
            rows == size.rows as nat,
            views.len() == n,
            forall|j: int| 0 <= j < rest@.len() ==> #[trigger] rest@[j]@ == views[consumed + j],
            orchestrator.state == LoopState::Running ==> session(rows, views) == (
                effects_view(effects@) + session_from(rows, views, consumed as int).0,
                session_from(rows, views, consumed as int).1,
            ),
            orchestrator.state == LoopState::Running ==> consumed_from(views, 0) == consumed
                + consumed_from(views, consumed as int),
            orchestrator.state != LoopState::Running ==> consumed_from(views, 0) == consumed,
            forall|c: i32|
                orchestrator.state == LoopState::Terminating(c) ==> session(rows, views) == (
                    effects_view(effects@),
                    Some(c),
                ),
        decreases rest@.len(),
    {
        let instruction = rest.remove(0);
        assert(instruction@ == views[consumed as int]);
        let mut step = orchestrator.handle(instruction);
        let ghost before = effects@;
        let ghost added = step@;
        effects.append(&mut step);
        assert(effects_view(effects@) =~= effects_view(before) + effects_view(added));
        proof {
            let k = consumed as int;
            let i = views[k];
            assert(session_from(rows, views, k) == match next_state(i) {
                LoopState::Terminating(code) => (step_effects(rows, i), Some(code)),
                LoopState::Running => (
                    step_effects(rows, i) + session_from(rows, views, k + 1).0,
                    session_from(rows, views, k + 1).1,
                ),
            });
            assert(effects_view(added) == step_effects(rows, i));
            assert(effects_view(effects@) == effects_view(before) + step_effects(rows, i));
            assert(effects_view(before) + (step_effects(rows, i) + session_from(rows, views, k + 1).0)
                =~= effects_view(effects@) + session_from(rows, views, k + 1).0);
        }
        proof {
            let k = consumed as int;
            let i = views[k];
            assert(is_terminal(i) == (next_state(i) != LoopState::Running));
            assert(consumed_from(views, k) == if is_terminal(i) { 1 } else { 1 + consumed_from(views, k + 1) });
        }
        consumed = consumed + 1;
    }
    let exit_code = match orchestrator.state {
        LoopState::Running => None,
        LoopState::Terminating(c) => Some(c),
    };
    SessionOutcome { effects, exit_code, consumed }
}

/// How many times the effects notify the server that the client leaves.
pub open spec fn client_exit_count(e: Seq<EffectView>) -> nat
    decreases e.len(),
{
    if e.len() == 0 {
        0
    } else {
        client_exit_count(e.drop_last()) + if e.last() == EffectView::SendToServer(
            ServerInstruction::ClientExit,
        ) {
            1nat
        } else {
            0nat
        }
    }
}

proof fn lemma_count_concat(a: Seq<EffectView>, b: Seq<EffectView>)
    ensures
        client_exit_count(a + b) == client_exit_count(a) + client_exit_count(b),
    decreases b.len(),
{
    if b.len() > 0 {
        lemma_count_concat(a, b.drop_last());
        assert((a + b).drop_last() =~= a + b.drop_last());
    } else {
        assert(a + b =~= a);
    }
}

proof fn lemma_counts(rows: nat, msg: Seq<char>, t: Seq<char>)
    ensures
        client_exit_count(teardown_effects(rows)) == 1,
        client_exit_count(error_effects(rows, msg)) == 1,
        client_exit_count(seq![EffectView::Write(t), EffectView::Flush]) == 0,
        client_exit_count(seq![EffectView::UnblockInput]) == 0,
{
    reveal_with_fuel(client_exit_count, 6);
}

/// Instructions that keep the loop running pass through without a notification to
/// the server, and the outcome is that of the first instruction that stops it.
proof fn lemma_skip_running(rows: nat, instrs: Seq<InstructionView>, j: int, k: int)
    requires
        0 <= j <= k < instrs.len(),
        forall|x: int| j <= x < k ==> !is_terminal(#[trigger] instrs[x]),
    ensures
        session_from(rows, instrs, j).1 == session_from(rows, instrs, k).1,
        client_exit_count(session_from(rows, instrs, j).0) == client_exit_count(
            session_from(rows, instrs, k).0,
        ),
        session_from(rows, instrs, j).0.len() >= session_from(rows, instrs, k).0.len(),
        session_from(rows, instrs, j).0.subrange(
            session_from(rows, instrs, j).0.len() - session_from(rows, instrs, k).0.len(),
            session_from(rows, instrs, j).0.len() as int,
        ) == session_from(rows, instrs, k).0,
    decreases k - j,
{
    let sk = session_from(rows, instrs, k).0;
    if j == k {
        assert(sk.subrange(0, sk.len() as int) =~= sk);
    } else {
        lemma_skip_running(rows, instrs, j + 1, k);
        let i = instrs[j];
        assert(!is_terminal(i));
        let step = step_effects(rows, i);
        let rest = session_from(rows, instrs, j + 1).0;
        let whole = session_from(rows, instrs, j).0;
        assert(whole == step + rest);
        match i {
            InstructionView::Render(Some(t)) => lemma_counts(rows, Seq::empty(), t),
            _ => lemma_counts(rows, Seq::empty(), Seq::empty()),
        }
        lemma_count_concat(step, rest);
        assert(whole.subrange(whole.len() - sk.len(), whole.len() as int) =~= rest.subrange(
            rest.len() - sk.len(),
            rest.len() as int,
        ));
    }
}

/// A sequence that ends in `Exit` or in the end of output, with nothing before that
/// stops the loop, ends the session with exit code 0, exactly one notification to
/// the server that the client leaves, and the full teardown at the end.
pub proof fn lemma_normal_end_exits_cleanly(rows: nat, instrs: Seq<InstructionView>)
    requires
        instrs.len() > 0,
        instrs.last() == InstructionView::Exit || instrs.last() == InstructionView::Render(None),
        forall|x: int| 0 <= x < instrs.len() - 1 ==> !is_terminal(#[trigger] instrs[x]),
    ensures
        session(rows, instrs).1 == Some(0i32),
        client_exit_count(session(rows, instrs).0) == 1,
        session(rows, instrs).0.len() >= teardown_effects(rows).len(),
        session(rows, instrs).0.subrange(
            session(rows, instrs).0.len() - teardown_effects(rows).len(),
            session(rows, instrs).0.len() as int,
        ) == teardown_effects(rows),
{
    let k = instrs.len() - 1;
    lemma_skip_running(rows, instrs, 0, k);
    assert(session_from(rows, instrs, k) == (teardown_effects(rows), Some(0i32)));
    lemma_counts(rows, Seq::empty(), Seq::empty());
}

/// An error reached by the loop ends the session with exit code 1, exactly one
/// notification to the server that the client leaves, and, last, the terminal's
/// restoration and the message, whatever non-stopping instructions came before.
pub proof fn lemma_error_exits_with_one(rows: nat, instrs: Seq<InstructionView>, k: int, msg: Seq<char>)
    requires
        0 <= k < instrs.len(),
        instrs[k] == InstructionView::Error(msg),
        forall|x: int| 0 <= x < k ==> !is_terminal(#[trigger] instrs[x]),
    ensures
        session(rows, instrs).1 == Some(1i32),
        client_exit_count(session(rows, instrs).0) == 1,
        session(rows, instrs).0.len() >= error_effects(rows, msg).len(),
        session(rows, instrs).0.subrange(
            session(rows, instrs).0.len() - error_effects(rows, msg).len(),
            session(rows, instrs).0.len() as int,
        ) == error_effects(rows, msg),
{
    lemma_skip_running(rows, instrs, 0, k);
    assert(session_from(rows, instrs, k) == (error_effects(rows, msg), Some(1i32)));
    lemma_counts(rows, msg, Seq::empty());
}

/// Any number of consecutive openings of the input latch keep the loop running: each
/// opens the latch once and nothing else happens.
pub proof fn lemma_unblocks_keep_running(rows: nat, instrs: Seq<InstructionView>)
    requires
        forall|x: int| 0 <= x < instrs.len() ==> #[trigger] instrs[x] == InstructionView::UnblockInputThread,
    ensures
        session(rows, instrs).1 == None::<i32>,
        session(rows, instrs).0 == Seq::new(instrs.len(), |x: int| EffectView::UnblockInput),
{
    lemma_unblocks_from(rows, instrs, 0);
}

proof fn lemma_unblocks_from(rows: nat, instrs: Seq<InstructionView>, k: int)
    requires
        0 <= k <= instrs.len(),
        forall|x: int| 0 <= x < instrs.len() ==> #[trigger] instrs[x] == InstructionView::UnblockInputThread,
    ensures
        session_from(rows, instrs, k).1 == None::<i32>,
        session_from(rows, instrs, k).0 == Seq::new((instrs.len() - k) as nat, |x: int| EffectView::UnblockInput),
    decreases instrs.len() - k,
{
    if k < instrs.len() {
        lemma_unblocks_from(rows, instrs, k + 1);
        assert(session_from(rows, instrs, k).0 =~= Seq::new(
            (instrs.len() - k) as nat,
            |x: int| EffectView::UnblockInput,
        ));
    } else {
        assert(session_from(rows, instrs, k).0 =~= Seq::new(0, |x: int| EffectView::UnblockInput));
    }
}

/// Two rendered texts reach the terminal in order: the first is written and flushed
/// before the second is written.
pub proof fn lemma_renders_in_order(rows: nat, a: Seq<char>, b: Seq<char>)
    ensures
        session(rows, seq![InstructionView::Render(Some(a)), InstructionView::Render(Some(b))]) == (
            seq![EffectView::Write(a), EffectView::Flush, EffectView::Write(b), EffectView::Flush],
            None::<i32>,
        ),
{
    let instrs = seq![InstructionView::Render(Some(a)), InstructionView::Render(Some(b))];
    assert(session_from(rows, instrs, 2) == (Seq::<EffectView>::empty(), None::<i32>));
    assert(session_from(rows, instrs, 1).0 =~= seq![EffectView::Write(b), EffectView::Flush]);
    assert(session_from(rows, instrs, 0).0 =~= seq![
        EffectView::Write(a),
        EffectView::Flush,
        EffectView::Write(b),
        EffectView::Flush,
    ]);
}

} // verus!

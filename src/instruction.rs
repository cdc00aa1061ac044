use vstd::prelude::*;

verus! {

/// Rows and columns of the terminal, as measured once when the client starts.
#[derive(Clone, Copy, Debug, PartialEq, Eq)]
pub struct TerminalSize {
    pub rows: usize,
    pub cols: usize,
}

/// Instructions related to the client-side application and sent from server to client.
#[derive(Clone, Debug, PartialEq, Eq)]
pub enum ClientInstruction {
    Error(String),
    Render(Option<String>),
    UnblockInputThread,
    Exit,
}

/// The instructions that the client sends to the server.
#[derive(Clone, Copy, Debug, PartialEq, Eq)]
pub enum ServerInstruction {
    NewClient(TerminalSize),
    TerminalResize(TerminalSize),
    ClientExit,
}

/// The kind of a client instruction, as recorded in a diagnostic trail.
#[derive(Clone, Copy, Debug, PartialEq, Eq)]
pub enum ClientContext {
    Error,
    Render,
    UnblockInputThread,
    Exit,
}

/// The view of a client instruction: its text payloads as character sequences.
pub enum InstructionView {
    Error(Seq<char>),
    Render(Option<Seq<char>>),
    UnblockInputThread,
    Exit,
}

impl View for ClientInstruction {
    type V = InstructionView;

    open spec fn view(&self) -> InstructionView {
        match self {
            ClientInstruction::Error(m) => InstructionView::Error(m@),
            ClientInstruction::Render(None) => InstructionView::Render(None),
            ClientInstruction::Render(Some(t)) => InstructionView::Render(Some(t@)),
            ClientInstruction::UnblockInputThread => InstructionView::UnblockInputThread,
            ClientInstruction::Exit => InstructionView::Exit,
        }
    }
}

/// An instruction after which the client's main loop stops: an error, the end of
/// output, or an exit.
pub open spec fn is_terminal(i: InstructionView) -> bool {
    match i {
        InstructionView::Error(_) => true,
        InstructionView::Render(None) => true,
        InstructionView::Exit => true,
        _ => false,
    }
}

pub open spec fn context_of(i: InstructionView) -> ClientContext {
    match i {
        InstructionView::Error(_) => ClientContext::Error,
        InstructionView::Render(_) => ClientContext::Render,
        InstructionView::UnblockInputThread => ClientContext::UnblockInputThread,
        InstructionView::Exit => ClientContext::Exit,
    }
}

impl ClientInstruction {
    /// Whether the main loop stops after this instruction.
    pub fn is_terminal(&self) -> (r: bool)
        ensures
            r == is_terminal(self@),
    {
        match self {
            ClientInstruction::Error(_) => true,
            ClientInstruction::Render(None) => true,
            ClientInstruction::Render(Some(_)) => false,
            ClientInstruction::UnblockInputThread => false,
            ClientInstruction::Exit => true,
        }
    }
}

/// What a failure anywhere in the process becomes: an error instruction for the
/// main loop, carrying the failure's description.
pub fn failure_instruction(description: String) -> (r: ClientInstruction)
    ensures
        r@ == InstructionView::Error(description@),
{
    ClientInstruction::Error(description)
}

impl ClientContext {
    /// The kind of an instruction, for the diagnostic trail.
    pub fn from_instruction(i: &ClientInstruction) -> (r: ClientContext)
        ensures
            r == context_of(i@),
    {
        match i {
            ClientInstruction::Error(_) => ClientContext::Error,
            ClientInstruction::Render(_) => ClientContext::Render,
            ClientInstruction::UnblockInputThread => ClientContext::UnblockInputThread,
            ClientInstruction::Exit => ClientContext::Exit,
        }
    }
}

/// An ordered, append-only trail of the places an instruction passed through.
#[derive(Clone, Debug)]
pub struct ErrorContext {
    calls: Vec<ClientContext>,
}

impl View for ErrorContext {
    type V = Seq<ClientContext>;

    closed spec fn view(&self) -> Seq<ClientContext> {
        self.calls@
    }
}

impl ErrorContext {
    /// An empty trail.
    pub fn new() -> (r: ErrorContext)
        ensures
            r@ == Seq::<ClientContext>::empty(),
    {
        ErrorContext { calls: Vec::new() }
    }

    /// Appends one call site at the end of the trail; what was there stays.
    pub fn add_call(&mut self, c: ClientContext)
        ensures
            final(self)@ == old(self)@.push(c),
    {
        self.calls.push(c);
    }

    /// The number of recorded calls.
    pub fn len(&self) -> (r: usize)
        ensures
            r == self@.len(),
    {
        self.calls.len()
    }

    /// The call recorded at position `i`.
    pub fn call(&self, i: usize) -> (r: ClientContext)
        requires
            i < self@.len(),
        ensures
            r == self@[i as int],
    {
        self.calls[i]
    }
}

} // verus!

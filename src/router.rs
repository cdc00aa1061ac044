use vstd::prelude::*;

use crate::instruction::{context_of, is_terminal, ClientContext, ClientInstruction, ErrorContext, InstructionView};
use crate::orchestrator::{lemma_normal_end_exits_cleanly, session};

verus! {

/// What the router forwards for one receive from the server (`None`: the connection
/// closed), and whether it stops reading.
pub open spec fn router_step(m: Option<InstructionView>) -> (Seq<InstructionView>, bool) {
    match m {
        None => (seq![InstructionView::Exit], true),
        Some(InstructionView::Exit) => (seq![InstructionView::Exit, InstructionView::Exit], true),
        Some(i) => (seq![i], false),
    }
}

pub open spec fn forwarded_view(v: Seq<(ClientInstruction, ErrorContext)>) -> Seq<InstructionView> {
    v.map_values(|p: (ClientInstruction, ErrorContext)| p.0@)
}

pub open spec fn received_view(m: Option<(ClientInstruction, ErrorContext)>) -> Option<InstructionView> {
    match m {
        None => None,
        Some(p) => Some(p.0@),
    }
}

/// Handles one receive from the server: the message gets the router's mark in its
/// trail and is passed on; on `Exit`, or when the connection closed, a terminal
/// `Exit` of the router's own follows and the router stops.
pub fn route_message(received: Option<(ClientInstruction, ErrorContext)>) -> (r: (
    Vec<(ClientInstruction, ErrorContext)>,
    bool,
))
    ensures
        forwarded_view(r.0@) == router_step(received_view(received)).0,
        r.0@.len() == router_step(received_view(received)).0.len(),
        r.1 == router_step(received_view(received)).1,
        match received {
            Some(p) => r.0@[0].1@ == p.1@.push(context_of(p.0@)),
            None => r.0@[0].1@ == seq![ClientContext::Exit],
        },
{
    let mut out: Vec<(ClientInstruction, ErrorContext)> = Vec::new();
    let mut done = false;
    match received {
        Some((instruction, ctx)) => {
            let mut ctx = ctx;
            ctx.add_call(ClientContext::from_instruction(&instruction));
            done = match instruction {
                ClientInstruction::Exit => true,
                _ => false,
            };
            out.push((instruction, ctx));
        },
        None => {},
    }
    if out.len() == 0 || done {
        let mut own = ErrorContext::new();
        own.add_call(ClientContext::Exit);
        out.push((ClientInstruction::Exit, own));
        done = true;
    }
    assert(forwarded_view(out@) =~= router_step(received_view(received)).0);
    (out, done)
}

/// When the server connection closes or sends `Exit`, the router stops after at most
/// two sends, the last of them a terminal `Exit`; a main loop that has only seen
/// instructions that keep it running then stops on it with exit code 0.
pub proof fn lemma_router_end_reaches_loop(
    rows: nat,
    earlier: Seq<InstructionView>,
    m: Option<InstructionView>,
)
    requires
        m == None::<InstructionView> || m == Some(InstructionView::Exit),
        forall|x: int| 0 <= x < earlier.len() ==> !is_terminal(#[trigger] earlier[x]),
    ensures
        router_step(m).1,
        1 <= router_step(m).0.len() <= 2,
        router_step(m).0.last() == InstructionView::Exit,
        session(rows, earlier + router_step(m).0.take(1)).1 == Some(0i32),
        session(rows, earlier + router_step(m).0) == session(rows, earlier + router_step(m).0.take(1)),
{
    let first = earlier + router_step(m).0.take(1);
    assert(first.last() == InstructionView::Exit);
    assert forall|x: int| 0 <= x < first.len() - 1 implies !is_terminal(#[trigger] first[x]) by {
        assert(first[x] == earlier[x]);
    }
    lemma_normal_end_exits_cleanly(rows, first);
    lemma_same_session_after_stop(rows, earlier, router_step(m).0);
}

proof fn lemma_same_session_after_stop(rows: nat, earlier: Seq<InstructionView>, tail: Seq<InstructionView>)
    requires
        tail.len() >= 1,
        tail[0] == InstructionView::Exit,
        forall|x: int| 0 <= x < earlier.len() ==> !is_terminal(#[trigger] earlier[x]),
    ensures
        session(rows, earlier + tail) == session(rows, earlier + tail.take(1)),
{
    lemma_prefix_agrees(rows, earlier + tail, earlier + tail.take(1), 0, earlier.len() as int);
}

proof fn lemma_prefix_agrees(rows: nat, a: Seq<InstructionView>, b: Seq<InstructionView>, k: int, stop: int)
    requires
        0 <= k <= stop,
        stop < a.len(),
        stop < b.len(),
        forall|x: int| 0 <= x <= stop ==> a[x] == b[x],
        is_terminal(a[stop]),
    ensures
        crate::orchestrator::session_from(rows, a, k) == crate::orchestrator::session_from(rows, b, k),
    decreases stop - k,
{
    if k < stop {
        lemma_prefix_agrees(rows, a, b, k + 1, stop);
    }
}

} // verus!

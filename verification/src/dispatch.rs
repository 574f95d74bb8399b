//! The request dispatcher: a single-threaded state machine consuming
//! inbound messages one at a time, routing definition and hover requests
//! to their resolvers and answering in strict arrival order, until a
//! shutdown message stops the loop.

use vstd::prelude::*;
use crate::catalog::InstructionCatalog;
use crate::definition::{resolve_definition, spec_definition_range, document_fits};
use crate::document::{SourceDocument, spec_lines, line_views};
use crate::hover::{resolve_hover, spec_hover_at};
use crate::location::{Location, Position};

verus! {

/// A typed inbound message, as the transport hands it over: requests carry
/// their identifier and, for the two supported queries, the document URI,
/// the document text as read at arrival, and the cursor position.
#[derive(Debug)]
pub enum Inbound {
    /// A go-to-definition request.
    DefinitionRequest { id: u64, uri: String, text: String, position: Position },
    /// A hover request.
    HoverRequest { id: u64, uri: String, text: String, position: Position },
    /// A request whose method the server does not recognize; left unanswered.
    UnknownRequest { id: u64 },
    /// The shutdown request: stop consuming after acknowledging.
    Shutdown { id: u64 },
    /// A notification; observed, no action.
    Notification,
    /// A response addressed to the server; observed, no action.
    PeerResponse,
    /// The exit notification following a shutdown.
    Exit,
}

/// A typed outbound response.
#[derive(Debug)]
pub enum Outbound {
    /// Answer to a go-to-definition request.
    DefinitionResponse { id: u64, location: Location },
    /// Answer to a hover request.
    HoverResponse { id: u64, text: String },
    /// Acknowledgement of the shutdown request.
    ShutdownAck { id: u64 },
}

/// Lifecycle of the server.
#[derive(Clone, Copy, Debug, PartialEq, Eq, Structural)]
pub enum ServerState {
    Initializing,
    Serving,
    ShuttingDown,
    Stopped,
}

/// What the server advertises at the handshake.
#[derive(Clone, Copy, Debug, PartialEq, Eq, Structural)]
pub struct Capabilities {
    pub hover_provider: bool,
    pub definition_provider: bool,
}

/// The dispatcher: holds the lifecycle state; the catalog is handed in by
/// the caller, built once at startup and read-only thereafter.
pub struct Dispatcher {
    pub state: ServerState,
}

/// A request position points into the document text it arrived with, and
/// the text's lines fit the wire format's 32-bit coordinates.
pub open spec fn inbound_wf(e: Inbound) -> bool {
    match e {
        Inbound::DefinitionRequest { text, position, .. } => position_fits(text@, position),
        Inbound::HoverRequest { text, position, .. } => position_fits(text@, position),
        _ => true,
    }
}

/// The position's line exists in the text and coordinates fit.
pub open spec fn position_fits(text: Seq<char>, pos: Position) -> bool {
    let lines = spec_lines(text);
    &&& pos.line < lines.len()
    &&& lines.len() <= u32::MAX
    &&& forall|i: int| 0 <= i < lines.len() ==> (#[trigger] lines[i]).len() <= u32::MAX
}

/// The state after one message: a shutdown message moves Serving to
/// ShuttingDown, the exit notification moves ShuttingDown to Stopped,
/// everything else leaves the state alone.
pub open spec fn spec_step_state(s: ServerState, e: Inbound) -> ServerState {
    match s {
        ServerState::Serving => match e {
            Inbound::Shutdown { .. } => ServerState::ShuttingDown,
            _ => ServerState::Serving,
        },
        ServerState::ShuttingDown => match e {
            Inbound::Exit => ServerState::Stopped,
            _ => ServerState::ShuttingDown,
        },
        other => other,
    }
}

/// The response one message is owed while serving: definition and hover
/// requests are answered under their own identifier with the resolvers'
/// results on the text as it arrived, shutdown is acknowledged, and
/// everything else — notifications, peer responses, unrecognized request
/// methods — produces nothing. Outside Serving nothing is produced.
pub open spec fn step_output_matches(
    s: ServerState,
    cat: InstructionCatalog,
    e: Inbound,
    r: Option<Outbound>,
) -> bool {
    if s is Serving {
        match e {
            Inbound::DefinitionRequest { id, uri, text, position } => {
                &&& r matches Some(Outbound::DefinitionResponse { id: rid, location })
                &&& rid == id
                &&& location.uri@ == uri@
                &&& location.range == spec_definition_range(spec_lines(text@), position)
            },
            Inbound::HoverRequest { id, uri, text, position } => {
                &&& r matches Some(Outbound::HoverResponse { id: rid, text: t })
                &&& rid == id
                &&& t@ == spec_hover_at(cat, spec_lines(text@), position)
            },
            Inbound::Shutdown { id } => r == Some(Outbound::ShutdownAck { id }),
            _ => r is None,
        }
    } else {
        r is None
    }
}

/// A document whose line views are the lines of a text with fitting
/// coordinates itself fits.
proof fn lemma_document_fits(doc: SourceDocument, text: Seq<char>)
    requires
        line_views(doc.lines@) == spec_lines(text),
        spec_lines(text).len() <= u32::MAX,
        forall|i: int| 0 <= i < spec_lines(text).len() ==> (#[trigger] spec_lines(text)[i]).len()
            <= u32::MAX,
    ensures
        document_fits(doc),
        doc.lines@.len() == spec_lines(text).len(),
{
    assert(doc.lines@.len() == line_views(doc.lines@).len());
    assert forall|i: int| 0 <= i < doc.lines@.len() implies (#[trigger] doc.lines@[i])@.len()
        <= u32::MAX by {
        assert(doc.lines@[i]@ == line_views(doc.lines@)[i]);
        assert(line_views(doc.lines@)[i] == spec_lines(text)[i]);
    }
}

impl Dispatcher {
    /// A dispatcher before the handshake.
    pub fn new() -> (d: Dispatcher)
        ensures
            d.state is Initializing,
    {
        Dispatcher { state: ServerState::Initializing }
    }

    /// The handshake: advertise hover and go-to-definition support, and
    /// nothing else, then start serving. Happens exactly once.
    pub fn initialize(&mut self) -> (caps: Capabilities)
        requires
            old(self).state is Initializing,
        ensures
            final(self).state is Serving,
            caps == (Capabilities { hover_provider: true, definition_provider: true }),
    {
        self.state = ServerState::Serving;
        Capabilities { hover_provider: true, definition_provider: true }
    }

    /// Consume one inbound message, fully, and produce its response, if
    /// the message is owed one.
    pub fn step(&mut self, catalog: &InstructionCatalog, event: Inbound) -> (r: Option<Outbound>)
        requires
            inbound_wf(event),
        ensures
            final(self).state == spec_step_state(old(self).state, event),
            step_output_matches(old(self).state, *catalog, event, r),
    {
        match self.state {
            ServerState::Serving => match event {
                Inbound::DefinitionRequest { id, uri, text, position } => {
                    let doc = SourceDocument::new(uri, text.as_str());
                    proof {
                        lemma_document_fits(doc, text@);
                    }
                    let location = resolve_definition(&doc, position);
                    Some(Outbound::DefinitionResponse { id, location })
                },
                Inbound::HoverRequest { id, uri, text, position } => {
                    let doc = SourceDocument::new(uri, text.as_str());
                    proof {
                        lemma_document_fits(doc, text@);
                    }
                    let t = resolve_hover(catalog, &doc, position);
                    Some(Outbound::HoverResponse { id, text: t })
                },
                Inbound::Shutdown { id } => {
                    self.state = ServerState::ShuttingDown;
                    Some(Outbound::ShutdownAck { id })
                },
                _ => None,
            },
            ServerState::ShuttingDown => match event {
                Inbound::Exit => {
                    self.state = ServerState::Stopped;
                    None
                },
                _ => None,
            },
            _ => None,
        }
    }
}

/// Indices of the messages from position `i` on that are owed a response,
/// in arrival order, cut off right after the first shutdown message.
pub open spec fn spec_answered_from(events: Seq<Inbound>, i: int) -> Seq<int>
    decreases events.len() - i,
{
    if i < 0 || i >= events.len() {
        Seq::empty()
    } else {
        match events[i] {
            Inbound::Shutdown { .. } => seq![i],
            Inbound::DefinitionRequest { .. } => seq![i] + spec_answered_from(events, i + 1),
            Inbound::HoverRequest { .. } => seq![i] + spec_answered_from(events, i + 1),
            _ => spec_answered_from(events, i + 1),
        }
    }
}

/// The answered indices, from the first message on.
pub open spec fn spec_answered(events: Seq<Inbound>) -> Seq<int> {
    spec_answered_from(events, 0)
}

/// Answers come in strict arrival order: the answered indices increase.
pub proof fn lemma_answered_ordered(events: Seq<Inbound>, i: int)
    requires
        0 <= i,
    ensures
        forall|j: int| 0 <= j < spec_answered_from(events, i).len() ==> i
            <= #[trigger] spec_answered_from(events, i)[j] < events.len(),
        forall|j1: int, j2: int|
            0 <= j1 < j2 < spec_answered_from(events, i).len() ==> spec_answered_from(events, i)[j1]
                < spec_answered_from(events, i)[j2],
    decreases events.len() - i,
{
    if 0 <= i < events.len() {
        lemma_answered_ordered(events, i + 1);
        let cur = spec_answered_from(events, i);
        let rest = spec_answered_from(events, i + 1);
        if events[i] is Shutdown {
            assert(cur == seq![i]);
            assert(cur[0] == i);
        } else if events[i] is DefinitionRequest || events[i] is HoverRequest {
            assert(cur == seq![i] + rest);
            assert forall|j: int| 0 <= j < cur.len() implies i <= #[trigger] cur[j]
                < events.len() by {
                if j == 0 {
                    assert(cur[0] == i);
                } else {
                    assert(cur[j] == rest[j - 1]);
                }
            }
            assert forall|j1: int, j2: int| 0 <= j1 < j2 < cur.len() implies cur[j1]
                < cur[j2] by {
                if j1 == 0 {
                    assert(cur[j1] == i);
                    assert(cur[j2] == rest[j2 - 1]);
                } else {
                    assert(cur[j1] == rest[j1 - 1]);
                    assert(cur[j2] == rest[j2 - 1]);
                }
            }
        } else {
            assert(cur == rest);
        }
    }
}

/// A shutdown message halts processing: no message after the first
/// shutdown is answered.
pub proof fn lemma_shutdown_halts(events: Seq<Inbound>, i: int, s: int)
    requires
        0 <= i <= s < events.len(),
        events[s] is Shutdown,
    ensures
        forall|j: int| 0 <= j < spec_answered_from(events, i).len() ==> #[trigger] spec_answered_from(
            events,
            i,
        )[j] <= s,
    decreases events.len() - i,
{
    let cur = spec_answered_from(events, i);
    if events[i] is Shutdown {
        assert(cur == seq![i]);
        assert(cur[0] == i);
    } else {
        lemma_shutdown_halts(events, i + 1, s);
        let rest = spec_answered_from(events, i + 1);
        if events[i] is DefinitionRequest || events[i] is HoverRequest {
            assert(cur == seq![i] + rest);
            assert forall|j: int| 0 <= j < cur.len() implies #[trigger] cur[j] <= s by {
                if j == 0 {
                    assert(cur[0] == i);
                } else {
                    assert(cur[j] == rest[j - 1]);
                }
            }
        } else {
            assert(cur == rest);
        }
    }
}

/// Run one serving session over a queue of inbound messages: starting from
/// the handshake, consume messages strictly in arrival order, answer each
/// message owed a response before looking at the next, and stop consuming
/// once a shutdown message is acknowledged. The outputs are exactly the
/// responses owed to the answered prefix, in arrival order.
pub fn run_session(catalog: &InstructionCatalog, events: Vec<Inbound>) -> (outputs: Vec<Outbound>)
    requires
        forall|i: int| 0 <= i < events@.len() ==> inbound_wf(#[trigger] events@[i]),
    ensures
        outputs@.len() == spec_answered(events@).len(),
        forall|j: int| 0 <= j < outputs@.len() ==> step_output_matches(
            ServerState::Serving,
            *catalog,
            events@[spec_answered(events@)[j]],
            Some(#[trigger] outputs@[j]),
        ),
{
    let ghost orig: Seq<Inbound> = events@;
    let mut d = Dispatcher::new();
    let _caps = d.initialize();
    let mut rest = events;
    let mut outputs: Vec<Outbound> = Vec::new();
    let mut i: usize = 0;
    let ghost mut answered: Seq<int> = Seq::empty();

    proof {
        assert(spec_answered(orig) =~= answered + spec_answered_from(orig, 0));
    }
    let total: usize = rest.len();
    loop
        invariant_except_break
            d.state is Serving,
            rest@ == orig.skip(i as int),
            spec_answered(orig) == answered + spec_answered_from(orig, i as int),
        invariant
            orig.len() == total,
            0 <= i <= orig.len(),
            forall|k: int| 0 <= k < orig.len() ==> inbound_wf(#[trigger] orig[k]),
            outputs@.len() == answered.len(),
            forall|j: int| 0 <= j < answered.len() ==> 0 <= #[trigger] answered[j] < orig.len(),
            forall|j: int| 0 <= j < outputs@.len() ==> step_output_matches(
                ServerState::Serving,
                *catalog,
                orig[answered[j]],
                Some(#[trigger] outputs@[j]),
            ),
        ensures
            spec_answered(orig) == answered,
            outputs@.len() == answered.len(),
            forall|j: int| 0 <= j < answered.len() ==> 0 <= #[trigger] answered[j] < orig.len(),
            forall|j: int| 0 <= j < outputs@.len() ==> step_output_matches(
                ServerState::Serving,
                *catalog,
                orig[answered[j]],
                Some(#[trigger] outputs@[j]),
            ),
        decreases orig.len() - i,
    {
        if rest.len() == 0 {
            proof {
                assert(i as int == orig.len());
                assert(spec_answered_from(orig, i as int) =~= Seq::<int>::empty());
                assert(spec_answered(orig) =~= answered);
            }
            break;
        }
        let ev = rest.remove(0);
        let ghost gev = ev;
        proof {
            assert(orig.skip(i as int)[0] == orig[i as int]);
            assert(gev == orig[i as int]);
            assert(rest@ =~= orig.skip(i + 1));
        }
        let out = d.step(catalog, ev);
        let ghost pre_answered = answered;
        match out {
            Some(o) => {
                outputs.push(o);
                proof {
                    answered = answered.push(i as int);
                }
            },
            None => {},
        }
        let stop = match d.state {
            ServerState::ShuttingDown => true,
            _ => false,
        };
        proof {
            if gev is Shutdown {
                assert(spec_answered_from(orig, i as int) =~= seq![i as int]);
                assert(answered =~= pre_answered.push(i as int));
                assert(spec_answered(orig) =~= answered);
            } else {
                if gev is DefinitionRequest || gev is HoverRequest {
                    assert(spec_answered_from(orig, i as int) =~= seq![i as int]
                        + spec_answered_from(orig, i + 1));
                    assert(pre_answered.push(i as int) + spec_answered_from(orig, i + 1)
                        =~= pre_answered + spec_answered_from(orig, i as int));
                } else {
                    assert(spec_answered_from(orig, i as int) =~= spec_answered_from(
                        orig,
                        i + 1,
                    ));
                }
            }
        }
        if stop {
            break;
        }
        i = i + 1;
    }
    outputs
}

} // verus!

//! The decisions of a client connection.

use crate::browser::codec::{
    decode_frame, encode_frame, encoding_of, frame_of, FrameSpec, GatewayError,
};
use crate::frame::{PcmFrame, PcmFrameView};
use vstd::prelude::*;

verus! {

/// What comes from a client.
pub enum ClientEvent {
    /// A binary message.
    Binary(Vec<u8>),
    /// A message of another kind.
    Other,
    /// The client closed the connection, or the stream ended.
    Closed,
    /// The transport failed; carries the reason.
    Failed(String),
}

/// What a connection does about it.
pub enum ClientAction {
    /// Hand the frame to the graph.
    Push(PcmFrame),
    /// Drop the message; carries the reason.
    Drop(GatewayError),
    /// Do nothing.
    Ignore,
    /// Close the connection.
    Close,
    /// End the connection with an error.
    Fail(GatewayError),
}

/// What a connection does about an event: a binary message that decodes is
/// handed on, one that does not is dropped and ends nothing, and only the end of
/// the stream or a failure ends the connection.
pub fn on_client_event(event: ClientEvent, spec: FrameSpec) -> (a: ClientAction)
    ensures
        match event {
            ClientEvent::Binary(bytes) => match frame_of(bytes@, spec) {
                Ok(frame) => a matches ClientAction::Push(f) && f@ == frame,
                Err(text) => a matches ClientAction::Drop(GatewayError::BadFrame(t)) && t@ == text,
            },
            ClientEvent::Other => a is Ignore,
            ClientEvent::Closed => a is Close,
            ClientEvent::Failed(text) => a == ClientAction::Fail(GatewayError::WebSocket(text)),
        },
{
    match event {
        ClientEvent::Binary(bytes) => match decode_frame(bytes.as_slice(), spec) {
            Ok(frame) => ClientAction::Push(frame),
            Err(e) => ClientAction::Drop(e),
        },
        ClientEvent::Other => ClientAction::Ignore,
        ClientEvent::Closed => ClientAction::Close,
        ClientEvent::Failed(text) => ClientAction::Fail(GatewayError::WebSocket(text)),
    }
}

/// What a connection does with a frame from the graph.
pub enum OutboundAction {
    /// Send the message.
    Send(Vec<u8>),
    /// Drop the frame; carries the reason.
    Drop(GatewayError),
}

/// What a connection does with a frame from the graph: a frame that has a
/// message is sent, any other is dropped.
pub fn on_outbound_frame(frame: &PcmFrame) -> (a: OutboundAction)
    ensures
        if frame@.channels <= 255 {
            a matches OutboundAction::Send(bytes) && bytes@ == encoding_of(frame@)
        } else {
            a matches OutboundAction::Drop(GatewayError::BadFrame(t)) && t@
                == "channel count overloads header byte"@
        },
{
    match encode_frame(frame) {
        Ok(bytes) => OutboundAction::Send(bytes),
        Err(e) => OutboundAction::Drop(e),
    }
}

/// Where a connection stands.
#[derive(Debug, Clone, Copy, PartialEq, Eq, Structural)]
pub enum Stage {
    /// It waits for the client or for the clock.
    Idle,
    /// A frame of the client is being handed to the graph.
    Pushing,
    /// The graph is being asked for a frame.
    Draining,
    /// A message is being sent.
    Sending,
    /// It has ended.
    Over,
}

/// What happens to a connection.
pub enum SessionEvent {
    /// Something came from the client.
    Client(ClientEvent),
    /// It is time to look for frames of the graph.
    Tick,
    /// The graph took the frame of the client, or had no room for it.
    Pushed(bool),
    /// What the graph had.
    Popped(Option<PcmFrame>),
    /// The message was sent, or the client has vanished.
    Sent(bool),
}

/// The contents of a [`SessionEvent`].
pub enum SessionEventView {
    /// A binary message.
    Binary(Seq<u8>),
    /// A message of another kind.
    Other,
    /// The client closed the connection, or the stream ended.
    Closed,
    /// The transport failed.
    Failed(Seq<char>),
    /// See [`SessionEvent::Tick`].
    Tick,
    /// See [`SessionEvent::Pushed`].
    Pushed(bool),
    /// See [`SessionEvent::Popped`].
    Popped(Option<PcmFrameView>),
    /// See [`SessionEvent::Sent`].
    Sent(bool),
}

impl View for SessionEvent {
    type V = SessionEventView;

    open spec fn view(&self) -> SessionEventView {
        match self {
            SessionEvent::Client(ClientEvent::Binary(bytes)) => SessionEventView::Binary(bytes@),
            SessionEvent::Client(ClientEvent::Other) => SessionEventView::Other,
            SessionEvent::Client(ClientEvent::Closed) => SessionEventView::Closed,
            SessionEvent::Client(ClientEvent::Failed(text)) => SessionEventView::Failed(text@),
            SessionEvent::Tick => SessionEventView::Tick,
            SessionEvent::Pushed(taken) => SessionEventView::Pushed(*taken),
            SessionEvent::Popped(Some(frame)) => SessionEventView::Popped(Some(frame@)),
            SessionEvent::Popped(None) => SessionEventView::Popped(None),
            SessionEvent::Sent(arrived) => SessionEventView::Sent(*arrived),
        }
    }
}

/// What a connection does next.
pub enum SessionAction {
    /// Wait for the client and for the clock.
    Wait,
    /// Hand a frame to the graph.
    Push(PcmFrame),
    /// Ask the graph for a frame.
    Pop,
    /// Send a message.
    Send(Vec<u8>),
    /// Close the connection; it has ended well.
    Close,
    /// Leave the connection; it has ended well.
    End,
    /// Leave the connection; it has failed.
    Fail(GatewayError),
}

/// The contents of a [`SessionAction`].
pub enum SessionActionView {
    /// See [`SessionAction::Wait`].
    Wait,
    /// See [`SessionAction::Push`].
    Push(PcmFrameView),
    /// See [`SessionAction::Pop`].
    Pop,
    /// See [`SessionAction::Send`].
    Send(Seq<u8>),
    /// See [`SessionAction::Close`].
    Close,
    /// See [`SessionAction::End`].
    End,
    /// The text of the error: see [`SessionAction::Fail`].
    Fail(Seq<char>),
}

impl View for SessionAction {
    type V = SessionActionView;

    open spec fn view(&self) -> SessionActionView {
        match self {
            SessionAction::Wait => SessionActionView::Wait,
            SessionAction::Push(frame) => SessionActionView::Push(frame@),
            SessionAction::Pop => SessionActionView::Pop,
            SessionAction::Send(bytes) => SessionActionView::Send(bytes@),
            SessionAction::Close => SessionActionView::Close,
            SessionAction::End => SessionActionView::End,
            SessionAction::Fail(e) => SessionActionView::Fail(e.text()),
        }
    }
}

/// What is lost on the way.
pub enum Loss {
    /// The graph had no room for a frame of the client.
    RingFull,
    /// A message of the client is no frame; carries the reason.
    Malformed(GatewayError),
    /// A frame of the graph has no message; carries the reason.
    Unencodable(GatewayError),
}

/// The contents of a [`Loss`].
pub enum LossView {
    /// See [`Loss::RingFull`].
    RingFull,
    /// The text of the error: see [`Loss::Malformed`].
    Malformed(Seq<char>),
    /// The text of the error: see [`Loss::Unencodable`].
    Unencodable(Seq<char>),
}

impl View for Loss {
    type V = LossView;

    open spec fn view(&self) -> LossView {
        match self {
            Loss::RingFull => LossView::RingFull,
            Loss::Malformed(e) => LossView::Malformed(e.text()),
            Loss::Unencodable(e) => LossView::Unencodable(e.text()),
        }
    }
}

/// The contents of a loss, where there is one.
pub open spec fn loss_view(loss: Option<Loss>) -> Option<LossView> {
    match loss {
        Some(l) => Some(l@),
        None => None,
    }
}

/// Whether an event can come at a stage.
pub open spec fn expects(stage: Stage, event: SessionEventView) -> bool {
    match event {
        SessionEventView::Pushed(_) => stage == Stage::Pushing,
        SessionEventView::Popped(_) => stage == Stage::Draining,
        SessionEventView::Sent(_) => stage == Stage::Sending,
        _ => stage == Stage::Idle,
    }
}

/// What a connection does about an event: its next stage, its next action, and
/// what is lost.
///
/// A message that is a frame is handed to the graph, and dropped where the graph
/// has no room. With every tick the graph is drained: each of its frames is sent,
/// or dropped where it has no message. Nothing that is dropped ends the connection.
/// What ends it is the client, by closing or vanishing, or the transport.
pub open spec fn reaction(event: SessionEventView, spec: FrameSpec) -> (
    Stage,
    SessionActionView,
    Option<LossView>,
) {
    match event {
        SessionEventView::Binary(bytes) => match frame_of(bytes, spec) {
            Ok(frame) => (Stage::Pushing, SessionActionView::Push(frame), None),
            Err(text) => (
                Stage::Idle,
                SessionActionView::Wait,
                Some(LossView::Malformed("bad frame: "@ + text)),
            ),
        },
        SessionEventView::Other => (Stage::Idle, SessionActionView::Wait, None),
        SessionEventView::Closed => (Stage::Over, SessionActionView::Close, None),
        SessionEventView::Failed(text) => (
            Stage::Over,
            SessionActionView::Fail("websocket: "@ + text),
            None,
        ),
        SessionEventView::Tick => (Stage::Draining, SessionActionView::Pop, None),
        SessionEventView::Pushed(true) => (Stage::Idle, SessionActionView::Wait, None),
        SessionEventView::Pushed(false) => (
            Stage::Idle,
            SessionActionView::Wait,
            Some(LossView::RingFull),
        ),
        SessionEventView::Popped(None) => (Stage::Idle, SessionActionView::Wait, None),
        SessionEventView::Popped(Some(frame)) => if frame.channels <= 255 {
            (Stage::Sending, SessionActionView::Send(encoding_of(frame)), None)
        } else {
            (
                Stage::Draining,
                SessionActionView::Pop,
                Some(
                    LossView::Unencodable("bad frame: "@ + "channel count overloads header byte"@),
                ),
            )
        },
        SessionEventView::Sent(true) => (Stage::Draining, SessionActionView::Pop, None),
        SessionEventView::Sent(false) => (Stage::Over, SessionActionView::End, None),
    }
}

/// A connection.
#[derive(Debug, Clone, Copy)]
pub struct Session {
    spec: FrameSpec,
    stage: Stage,
}

impl Session {
    /// The shape of its frames.
    pub closed spec fn shape(&self) -> FrameSpec {
        self.spec
    }

    /// Where it stands.
    pub closed spec fn at(&self) -> Stage {
        self.stage
    }

    /// A connection that waits, with frames of the given shape.
    pub fn new(spec: FrameSpec) -> (s: Self)
        ensures
            s.shape() == spec,
            s.at() == Stage::Idle,
    {
        Session { spec, stage: Stage::Idle }
    }

    /// Where it stands.
    pub fn stage(&self) -> (stage: Stage)
        ensures
            stage == self.at(),
    {
        self.stage
    }

    /// Takes an event and tells what to do next, and what is lost.
    pub fn step(&mut self, event: SessionEvent) -> (r: (SessionAction, Option<Loss>))
        requires
            expects(old(self).at(), event@),
        ensures
            final(self).shape() == old(self).shape(),
            (final(self).at(), r.0@, loss_view(r.1)) == reaction(event@, old(self).shape()),
    {
        match event {
            SessionEvent::Client(event) => match on_client_event(event, self.spec) {
                ClientAction::Push(frame) => {
                    self.stage = Stage::Pushing;
                    (SessionAction::Push(frame), None)
                },
                ClientAction::Drop(e) => {
                    self.stage = Stage::Idle;
                    (SessionAction::Wait, Some(Loss::Malformed(e)))
                },
                ClientAction::Ignore => {
                    self.stage = Stage::Idle;
                    (SessionAction::Wait, None)
                },
                ClientAction::Close => {
                    self.stage = Stage::Over;
                    (SessionAction::Close, None)
                },
                ClientAction::Fail(e) => {
                    self.stage = Stage::Over;
                    (SessionAction::Fail(e), None)
                },
            },
            SessionEvent::Tick => {
                self.stage = Stage::Draining;
                (SessionAction::Pop, None)
            },
            SessionEvent::Pushed(taken) => {
                self.stage = Stage::Idle;
                let loss = if taken {
                    None
                } else {
                    Some(Loss::RingFull)
                };
                (SessionAction::Wait, loss)
            },
            SessionEvent::Popped(None) => {
                self.stage = Stage::Idle;
                (SessionAction::Wait, None)
            },
            SessionEvent::Popped(Some(frame)) => match on_outbound_frame(&frame) {
                OutboundAction::Send(bytes) => {
                    self.stage = Stage::Sending;
                    (SessionAction::Send(bytes), None)
                },
                OutboundAction::Drop(e) => {
                    self.stage = Stage::Draining;
                    (SessionAction::Pop, Some(Loss::Unencodable(e)))
                },
            },
            SessionEvent::Sent(true) => {
                self.stage = Stage::Draining;
                (SessionAction::Pop, None)
            },
            SessionEvent::Sent(false) => {
                self.stage = Stage::Over;
                (SessionAction::End, None)
            },
        }
    }
}

/// Where a connection stands after some events.
pub open spec fn stage_after(events: Seq<SessionEventView>, spec: FrameSpec) -> Stage {
    if events.len() == 0 {
        Stage::Idle
    } else {
        reaction(events.last(), spec).0
    }
}

/// Whether the events can come to a connection, one after the other.
pub open spec fn is_course(events: Seq<SessionEventView>, spec: FrameSpec) -> bool {
    forall|i: int|
        0 <= i < events.len() ==> expects(
            stage_after(events.take(i), spec),
            #[trigger] events[i],
        )
}

/// The frames that are handed to the graph over some events.
pub open spec fn pushed_over(events: Seq<SessionEventView>, spec: FrameSpec) -> Seq<PcmFrameView>
    decreases events.len(),
{
    if events.len() == 0 {
        Seq::empty()
    } else {
        let before = pushed_over(events.drop_last(), spec);
        match reaction(events.last(), spec).1 {
            SessionActionView::Push(frame) => before.push(frame),
            _ => before,
        }
    }
}

/// The frames among the messages of the client, over some events.
pub open spec fn received_over(events: Seq<SessionEventView>, spec: FrameSpec) -> Seq<PcmFrameView>
    decreases events.len(),
{
    if events.len() == 0 {
        Seq::empty()
    } else {
        let before = received_over(events.drop_last(), spec);
        match events.last() {
            SessionEventView::Binary(bytes) => match frame_of(bytes, spec) {
                Ok(frame) => before.push(frame),
                Err(_) => before,
            },
            _ => before,
        }
    }
}

/// The messages that are sent over some events.
pub open spec fn sent_over(events: Seq<SessionEventView>, spec: FrameSpec) -> Seq<Seq<u8>>
    decreases events.len(),
{
    if events.len() == 0 {
        Seq::empty()
    } else {
        let before = sent_over(events.drop_last(), spec);
        match reaction(events.last(), spec).1 {
            SessionActionView::Send(bytes) => before.push(bytes),
            _ => before,
        }
    }
}

/// The messages of the frames that the graph had, over some events.
pub open spec fn drained_over(events: Seq<SessionEventView>) -> Seq<Seq<u8>>
    decreases events.len(),
{
    if events.len() == 0 {
        Seq::empty()
    } else {
        let before = drained_over(events.drop_last());
        match events.last() {
            SessionEventView::Popped(Some(frame)) => if frame.channels <= 255 {
                before.push(encoding_of(frame))
            } else {
                before
            },
            _ => before,
        }
    }
}

/// Nothing is lost, made up or moved in between: the frames of the client are handed
/// to the graph in the order in which they came, and the frames of the graph that
/// have a message are sent in the order in which they were popped.
pub proof fn law_frames_keep_their_order(events: Seq<SessionEventView>, spec: FrameSpec)
    ensures
        pushed_over(events, spec) == received_over(events, spec),
        sent_over(events, spec) == drained_over(events),
    decreases events.len(),
{
    if events.len() > 0 {
        law_frames_keep_their_order(events.drop_last(), spec);
    }
}

/// A connection ends only where the client closes it or has vanished, or where the
/// transport fails. From then on nothing can come.
pub proof fn law_what_ends_a_connection(events: Seq<SessionEventView>, spec: FrameSpec, i: int)
    requires
        is_course(events, spec),
        0 <= i < events.len(),
    ensures
        stage_after(events.take(i + 1), spec) == Stage::Over <==> (events[i] is Closed
            || events[i] is Failed || events[i] == SessionEventView::Sent(false)),
        stage_after(events.take(i + 1), spec) == Stage::Over ==> i == events.len() - 1,
{
    assert(events.take(i + 1).last() == events[i]);
    if i + 1 < events.len() {
        assert(expects(stage_after(events.take(i + 1), spec), events[i + 1]));
    }
}

/// What each event leads to. A message that is a frame is handed to the graph, and one
/// that is not is dropped. A tick empties the graph: frame after frame is taken and sent,
/// until there is none or sending fails. Only a closing or vanished client and a failed
/// transport end the connection.
pub proof fn law_what_events_lead_to(event: SessionEventView, spec: FrameSpec)
    ensures
        ({
            let (stage, action, loss) = reaction(event, spec);
            &&& event matches SessionEventView::Binary(bytes) ==> match frame_of(bytes, spec) {
                Ok(frame) => stage == Stage::Pushing && action == SessionActionView::Push(frame)
                    && loss is None,
                Err(_) => stage == Stage::Idle && action is Wait && loss matches Some(
                    LossView::Malformed(_),
                ),
            }
            &&& event is Other ==> stage == Stage::Idle && action is Wait && loss is None
            &&& event is Tick ==> stage == Stage::Draining && action is Pop && loss is None
            &&& event is Closed ==> stage == Stage::Over && action is Close && loss is None
            &&& event is Failed ==> stage == Stage::Over && action is Fail && loss is None
            &&& event matches SessionEventView::Pushed(taken) ==> stage == Stage::Idle
                && action is Wait && (taken <==> loss is None) && (!taken ==> loss == Some(
                LossView::RingFull,
            ))
            &&& event matches SessionEventView::Sent(done) ==> loss is None && if done {
                stage == Stage::Draining && action is Pop
            } else {
                stage == Stage::Over && action is End
            }
            &&& event matches SessionEventView::Popped(None) ==> stage == Stage::Idle
                && action is Wait && loss is None
        }),
{
}

/// A frame of the graph is sent as its message, with the samples behind the header in
/// their order and their lowest byte first. One with more channels than a byte can tell
/// is dropped, and the graph is emptied further.
pub proof fn law_what_is_sent_of_a_frame(frame: PcmFrameView, spec: FrameSpec, i: int)
    ensures
        ({
            let (stage, action, loss) = reaction(SessionEventView::Popped(Some(frame)), spec);
            &&& frame.channels <= 255 ==> {
                &&& stage == Stage::Sending
                &&& loss is None
                &&& action matches SessionActionView::Send(bytes)
                &&& bytes.len() == 6 + 4 * frame.samples.len()
                &&& bytes[0] == 0
                &&& bytes[1] == frame.channels
                &&& 0 <= i < frame.samples.len() ==> frame.samples[i] == bytes[6 + 4 * i] + 256
                    * bytes[6 + 4 * i + 1] + 65_536 * bytes[6 + 4 * i + 2] + 16_777_216 * bytes[6
                    + 4 * i + 3]
            }
            &&& frame.channels > 255 ==> stage == Stage::Draining && action is Pop
                && loss matches Some(LossView::Unencodable(_))
        }),
{
    if frame.channels <= 255 {
        crate::browser::codec::law_frames_are_written_in_order(frame, i);
    }
}

/// Which event can come is settled by the last action: an answer to what was asked for,
/// and only where nothing was asked for, something from outside. Once the connection is
/// over nothing can come.
pub proof fn law_answers_come_to_what_was_asked(
    event: SessionEventView,
    answer: SessionEventView,
    spec: FrameSpec,
)
    ensures
        ({
            let (stage, action, loss) = reaction(event, spec);
            &&& answer is Pushed ==> (expects(stage, answer) <==> action is Push)
            &&& answer is Popped ==> (expects(stage, answer) <==> action is Pop)
            &&& answer is Sent ==> (expects(stage, answer) <==> action is Send)
            &&& !(answer is Pushed || answer is Popped || answer is Sent) ==> (expects(
                stage,
                answer,
            ) <==> action is Wait)
        }),
{
}

} // verus!

//! The conversation session: a state machine that turns what happens (a line
//! of input, a reply of the model, a fragment of a streamed answer) into the
//! next thing to do, and carries the continuation token from turn to turn.
//!
//! The session decides and never performs: its caller reads the input, talks
//! to the backend and writes the output, and reports each outcome as an
//! [`Event`]. The token is owned by the session. It is replaced only when a
//! stream ends well, by the last token that stream carried (or by none); a
//! failed turn leaves it as it was.

use crate::command::{command_of, Command, CommandView, Vocabulary};
use crate::dispatch::{
    dispatch, dispatched, DispatchError, DispatchErrorView, HandlerCall, HandlerCallView,
};
use crate::text::{string_views, trim, trimmed};
use crate::tool_call::{decode, decoded};
use vstd::prelude::*;

verus! {

/// Where a session stands.
#[derive(Debug, Clone, Copy, PartialEq, Eq, Structural)]
pub enum Phase {
    /// Waiting for the next line of input.
    Idle,
    /// The line went to the model for classification.
    AwaitingDecision,
    /// A handler other than the conversational one is running.
    Dispatching,
    /// The conversational backend is streaming its answer.
    Streaming,
    /// The user ended the session. Nothing leaves this phase.
    Terminated,
}

/// What happened outside the session.
#[derive(Debug)]
pub enum Event<T> {
    /// The user entered a line.
    Input { line: String },
    /// The classification call returned this text.
    Classified { reply: String },
    /// The classification call failed or returned no text.
    Unclassified,
    /// The stream yielded a fragment, with the continuation token it carried
    /// if it carried one.
    Fragment { text: String, token: Option<T> },
    /// The stream ended well.
    StreamEnded,
    /// The backend failed before or while streaming.
    StreamFailed,
    /// The handler that was invoked has returned.
    Handled,
}

pub enum EventView<T> {
    Input { line: Seq<char> },
    Classified { reply: Seq<char> },
    Unclassified,
    Fragment { text: Seq<char>, token: Option<T> },
    StreamEnded,
    StreamFailed,
    Handled,
}

impl<T> View for Event<T> {
    type V = EventView<T>;

    open spec fn view(&self) -> EventView<T> {
        match self {
            Event::Input { line } => EventView::Input { line: line@ },
            Event::Classified { reply } => EventView::Classified { reply: reply@ },
            Event::Unclassified => EventView::Unclassified,
            Event::Fragment { text, token } => EventView::Fragment { text: text@, token: *token },
            Event::StreamEnded => EventView::StreamEnded,
            Event::StreamFailed => EventView::StreamFailed,
            Event::Handled => EventView::Handled,
        }
    }
}

/// What the caller is to do next.
#[derive(Debug, Clone, PartialEq, Eq)]
pub enum Action {
    /// Send the message, with the system instruction, to the classification
    /// backend.
    Classify { message: String },
    /// Ingest the documents at these paths, then ask for the next line.
    Attach { paths: Vec<String> },
    /// Start the conversational stream on `input` with the session's token.
    Generate { input: String },
    /// Run the handler of this call.
    Invoke { call: HandlerCall },
    /// Write the fragment to the output sink, now.
    Emit { text: String },
    /// Log the payload that could not be decoded; the turn is dropped.
    Reject { payload: String },
    /// Tell the user why the call was not routed.
    Warn { error: DispatchError },
    /// Tell the user that the backend failed.
    Fail,
    /// The turn is over: ask for the next line.
    Prompt,
    /// The session is over.
    Farewell,
    /// The event does not belong to this phase; nothing changed.
    Ignore,
}

pub enum ActionView {
    Classify { message: Seq<char> },
    Attach { paths: Seq<Seq<char>> },
    Generate { input: Seq<char> },
    Invoke { call: HandlerCallView },
    Emit { text: Seq<char> },
    Reject { payload: Seq<char> },
    Warn { error: DispatchErrorView },
    Fail,
    Prompt,
    Farewell,
    Ignore,
}

impl View for Action {
    type V = ActionView;

    open spec fn view(&self) -> ActionView {
        match self {
            Action::Classify { message } => ActionView::Classify { message: message@ },
            Action::Attach { paths } => ActionView::Attach { paths: string_views(paths@) },
            Action::Generate { input } => ActionView::Generate { input: input@ },
            Action::Invoke { call } => ActionView::Invoke { call: call@ },
            Action::Emit { text } => ActionView::Emit { text: text@ },
            Action::Reject { payload } => ActionView::Reject { payload: payload@ },
            Action::Warn { error } => ActionView::Warn { error: error@ },
            Action::Fail => ActionView::Fail,
            Action::Prompt => ActionView::Prompt,
            Action::Farewell => ActionView::Farewell,
            Action::Ignore => ActionView::Ignore,
        }
    }
}

/// One conversation. `T` is the backend's continuation token, which the
/// session stores and hands back without looking inside.
#[derive(Debug)]
pub struct Session<T> {
    vocabulary: Vocabulary,
    phase: Phase,
    token: Option<T>,
    pending: Option<T>,
}

/// The state of a session.
pub struct SessionView<T> {
    pub vocabulary: Vocabulary,
    pub phase: Phase,
    /// The token of the last turn that was completed.
    pub token: Option<T>,
    /// The last token that the running stream has carried so far.
    pub pending: Option<T>,
}

impl<T> View for Session<T> {
    type V = SessionView<T>;

    closed spec fn view(&self) -> SessionView<T> {
        SessionView {
            vocabulary: self.vocabulary,
            phase: self.phase,
            token: self.token,
            pending: self.pending,
        }
    }
}

/// A session as it starts: idle, without a token.
pub open spec fn initial<T>(vocabulary: Vocabulary) -> SessionView<T> {
    SessionView { vocabulary, phase: Phase::Idle, token: None, pending: None }
}

/// The state `s` back in `Idle` with `token` stored.
pub open spec fn idle<T>(s: SessionView<T>, token: Option<T>) -> SessionView<T> {
    SessionView { vocabulary: s.vocabulary, phase: Phase::Idle, token, pending: None }
}

/// The state `s` moved to `phase`, its token kept.
pub open spec fn moved<T>(s: SessionView<T>, phase: Phase) -> SessionView<T> {
    SessionView { vocabulary: s.vocabulary, phase, token: s.token, pending: None }
}

/// What an idle session makes of a line of input.
pub open spec fn on_input<T>(s: SessionView<T>, line: Seq<char>) -> (SessionView<T>, ActionView) {
    match command_of(trimmed(line), s.vocabulary) {
        CommandView::Exit => (
            SessionView {
                vocabulary: s.vocabulary,
                phase: Phase::Terminated,
                token: None,
                pending: None,
            },
            ActionView::Farewell,
        ),
        CommandView::Attach { paths } => (s, ActionView::Attach { paths }),
        CommandView::Chat { message } => (
            moved(s, Phase::AwaitingDecision),
            ActionView::Classify { message },
        ),
    }
}

/// What a session that awaits a decision makes of the model's reply.
pub open spec fn on_reply<T>(s: SessionView<T>, reply: Seq<char>) -> (SessionView<T>, ActionView) {
    match decoded(reply) {
        None => (idle(s, s.token), ActionView::Reject { payload: reply }),
        Some(call) => match dispatched(call) {
            Err(error) => (idle(s, s.token), ActionView::Warn { error }),
            Ok(HandlerCallView::Converse { input }) => (
                moved(s, Phase::Streaming),
                ActionView::Generate { input },
            ),
            Ok(call) => (moved(s, Phase::Dispatching), ActionView::Invoke { call }),
        },
    }
}

/// The transition function of the session.
pub open spec fn step<T>(s: SessionView<T>, e: EventView<T>) -> (SessionView<T>, ActionView) {
    match (s.phase, e) {
        (Phase::Idle, EventView::Input { line }) => on_input(s, line),
        (Phase::AwaitingDecision, EventView::Classified { reply }) => on_reply(s, reply),
        (Phase::AwaitingDecision, EventView::Unclassified) => (idle(s, s.token), ActionView::Fail),
        (Phase::Streaming, EventView::Fragment { text, token }) => (
            SessionView {
                vocabulary: s.vocabulary,
                phase: Phase::Streaming,
                token: s.token,
                pending: if token is Some {
                    token
                } else {
                    s.pending
                },
            },
            ActionView::Emit { text },
        ),
        (Phase::Streaming, EventView::StreamEnded) => (idle(s, s.pending), ActionView::Prompt),
        (Phase::Streaming, EventView::StreamFailed) => (idle(s, s.token), ActionView::Fail),
        (Phase::Dispatching, EventView::Handled) => (idle(s, s.token), ActionView::Prompt),
        _ => (s, ActionView::Ignore),
    }
}

/// The state after a sequence of events, and the actions they gave.
pub open spec fn run<T>(s: SessionView<T>, events: Seq<EventView<T>>) -> (
    SessionView<T>,
    Seq<ActionView>,
)
    decreases events.len(),
{
    if events.len() == 0 {
        (s, Seq::empty())
    } else {
        let (before, actions) = run(s, events.drop_last());
        let (after, action) = step(before, events.last());
        (after, actions.push(action))
    }
}

/// A fragment of a stream: its text, and the continuation token it carries
/// if it carries one.
pub struct FragmentView<T> {
    pub text: Seq<char>,
    pub token: Option<T>,
}

/// The events of a stream that yields `fragments`.
pub open spec fn fragment_events<T>(fragments: Seq<FragmentView<T>>) -> Seq<EventView<T>> {
    Seq::new(
        fragments.len(),
        |i: int| EventView::Fragment { text: fragments[i].text, token: fragments[i].token },
    )
}

/// What goes to the output sink for `fragments`: each text, in order.
pub open spec fn emissions<T>(fragments: Seq<FragmentView<T>>) -> Seq<ActionView> {
    Seq::new(fragments.len(), |i: int| ActionView::Emit { text: fragments[i].text })
}

/// The token of the last fragment that carries one, or `None` if none does.
pub open spec fn last_token<T>(fragments: Seq<FragmentView<T>>) -> Option<T>
    decreases fragments.len(),
{
    if fragments.len() == 0 {
        None
    } else if fragments.last().token is Some {
        fragments.last().token
    } else {
        last_token(fragments.drop_last())
    }
}

/// While a stream runs, every fragment is emitted as it arrives and the
/// stored token is not touched.
pub proof fn streaming_emits_and_keeps_the_token<T>(
    s: SessionView<T>,
    fragments: Seq<FragmentView<T>>,
)
    requires
        s.phase == Phase::Streaming,
        s.pending is None,
    ensures
        run(s, fragment_events(fragments)).0 == (SessionView {
            pending: last_token(fragments),
            ..s
        }),
        run(s, fragment_events(fragments)).1 == emissions(fragments),
    decreases fragments.len(),
{
    let events = fragment_events(fragments);
    if fragments.len() > 0 {
        streaming_emits_and_keeps_the_token(s, fragments.drop_last());
        assert(events.drop_last() =~= fragment_events(fragments.drop_last()));
        assert(emissions(fragments.drop_last()).push(
            ActionView::Emit { text: fragments.last().text },
        ) =~= emissions(fragments));
    } else {
        assert(run(s, events).1 =~= emissions(fragments));
    }
}

/// A stream that ends well stores the token of its last token-bearing
/// fragment, or clears the stored token if no fragment carried one. The
/// store happens once, after the last fragment was emitted, and the session
/// is idle again.
pub proof fn ended_stream_stores_its_last_token<T>(
    s: SessionView<T>,
    fragments: Seq<FragmentView<T>>,
)
    requires
        s.phase == Phase::Streaming,
        s.pending is None,
    ensures
        run(s, fragment_events(fragments).push(EventView::StreamEnded)).0 == idle(
            s,
            last_token(fragments),
        ),
        run(s, fragment_events(fragments).push(EventView::StreamEnded)).1 == emissions(
            fragments,
        ).push(ActionView::Prompt),
        run(s, fragment_events(fragments)).0.token == s.token,
{
    let events = fragment_events(fragments).push(EventView::StreamEnded);
    streaming_emits_and_keeps_the_token(s, fragments);
    assert(events.drop_last() =~= fragment_events(fragments));
}

/// A stream that fails leaves the stored token as it was before the turn,
/// whatever fragments and tokens came before the failure, and the session is
/// idle again.
pub proof fn failed_stream_keeps_the_token<T>(s: SessionView<T>, fragments: Seq<FragmentView<T>>)
    requires
        s.phase == Phase::Streaming,
        s.pending is None,
    ensures
        run(s, fragment_events(fragments).push(EventView::StreamFailed)).0 == idle(s, s.token),
        run(s, fragment_events(fragments).push(EventView::StreamFailed)).1 == emissions(
            fragments,
        ).push(ActionView::Fail),
{
    let events = fragment_events(fragments).push(EventView::StreamFailed);
    streaming_emits_and_keeps_the_token(s, fragments);
    assert(events.drop_last() =~= fragment_events(fragments));
}

/// The stored token changes in two places only: when a stream ends well, and
/// when the user ends the session. No failure and no rejected reply touches
/// it.
pub proof fn token_changes_only_at_stream_end_or_exit<T>(s: SessionView<T>, e: EventView<T>)
    requires
        step(s, e).0.token != s.token,
    ensures
        (s.phase == Phase::Streaming && e is StreamEnded) || (s.phase == Phase::Idle && e is Input
            && step(s, e).0.phase == Phase::Terminated),
{
}

/// A line whose first word is an exit word ends an idle session and releases
/// the token.
pub proof fn exit_word_terminates<T>(s: SessionView<T>, line: Seq<char>)
    requires
        s.phase == Phase::Idle,
        command_of(trimmed(line), s.vocabulary) is Exit,
    ensures
        step(s, EventView::Input { line }).0.phase == Phase::Terminated,
        step(s, EventView::Input { line }).0.token is None,
        step(s, EventView::Input { line }).1 == ActionView::Farewell,
{
}

/// The session ends by an exit command at the idle boundary and in no other
/// way, and once ended it stays ended: every later event is ignored.
pub proof fn only_an_exit_command_terminates<T>(s: SessionView<T>, e: EventView<T>)
    ensures
        s.phase == Phase::Terminated ==> step(s, e) == (s, ActionView::Ignore),
        s.phase != Phase::Terminated && step(s, e).0.phase == Phase::Terminated ==> s.phase
            == Phase::Idle && e is Input && command_of(trimmed(e->line), s.vocabulary) is Exit,
{
}

/// Whether the session may go from phase `from` to phase `to` in one step.
pub open spec fn may_follow(from: Phase, to: Phase) -> bool {
    from == to || match from {
        Phase::Idle => to == Phase::AwaitingDecision || to == Phase::Terminated,
        Phase::AwaitingDecision => to == Phase::Streaming || to == Phase::Dispatching || to
            == Phase::Idle,
        Phase::Streaming => to == Phase::Idle,
        Phase::Dispatching => to == Phase::Idle,
        Phase::Terminated => false,
    }
}

/// The session moves along its phase graph and nowhere else: from `Idle` to
/// `AwaitingDecision`, from there to `Streaming` or `Dispatching`, and back
/// to `Idle`; `Terminated` is entered from `Idle` only and never left.
pub proof fn phases_follow_the_graph<T>(s: SessionView<T>, e: EventView<T>)
    ensures
        may_follow(s.phase, step(s, e).0.phase),
        step(s, e).0.vocabulary == s.vocabulary,
{
}

/// Whatever a turn brings, a session that has not ended comes back to
/// accepting input: a rejected reply, a refused call and a failed backend
/// all lead to `Idle`.
pub proof fn failures_return_to_idle<T>(s: SessionView<T>, e: EventView<T>)
    requires
        matches!(
            step(s, e).1,
            ActionView::Reject { .. } | ActionView::Warn { .. } | ActionView::Fail
        ),
    ensures
        step(s, e).0 == idle(s, s.token),
{
}

impl<T> Session<T> {
    /// A new session: idle, without a token.
    pub fn new(vocabulary: Vocabulary) -> (session: Session<T>)
        ensures
            session@ == initial::<T>(vocabulary),
    {
        Session { vocabulary, phase: Phase::Idle, token: None, pending: None }
    }

    pub fn phase(&self) -> (phase: Phase)
        ensures
            phase == self@.phase,
    {
        self.phase
    }

    /// The continuation token to hand to the backend with the next stream.
    pub fn token(&self) -> (token: Option<&T>)
        ensures
            match token {
                Some(t) => self@.token == Some(*t),
                None => self@.token is None,
            },
    {
        self.token.as_ref()
    }

    pub fn is_terminated(&self) -> (b: bool)
        ensures
            b == (self@.phase == Phase::Terminated),
    {
        self.phase == Phase::Terminated
    }

    fn input(&mut self, line: String) -> (action: Action)
        requires
            old(self)@.phase == Phase::Idle,
        ensures
            (final(self)@, action@) == on_input(old(self)@, line@),
    {
        let line = trim(line.as_str());
        match Command::parse(line.as_str(), self.vocabulary) {
            Command::Exit => {
                self.phase = Phase::Terminated;
                self.token = None;
                self.pending = None;
                Action::Farewell
            },
            Command::Attach { paths } => Action::Attach { paths },
            Command::Chat { message } => {
                self.phase = Phase::AwaitingDecision;
                self.pending = None;
                Action::Classify { message }
            },
        }
    }

    fn reply(&mut self, reply: String) -> (action: Action)
        requires
            old(self)@.phase == Phase::AwaitingDecision,
        ensures
            (final(self)@, action@) == on_reply(old(self)@, reply@),
    {
        self.pending = None;
        let call = match decode(reply.as_str()) {
            Ok(call) => call,
            Err(_) => {
                self.phase = Phase::Idle;
                return Action::Reject { payload: reply };
            },
        };
        match dispatch(&call) {
            Err(error) => {
                self.phase = Phase::Idle;
                Action::Warn { error }
            },
            Ok(HandlerCall::Converse { input }) => {
                self.phase = Phase::Streaming;
                Action::Generate { input }
            },
            Ok(call) => {
                self.phase = Phase::Dispatching;
                Action::Invoke { call }
            },
        }
    }

    /// Takes an event and says what to do next.
    ///
    /// The new state and the action are those of [`step`]. An event that does
    /// not belong to the current phase changes nothing and gives
    /// [`Action::Ignore`].
    pub fn step(&mut self, event: Event<T>) -> (action: Action)
        ensures
            (final(self)@, action@) == step(old(self)@, event@),
    {
        match (self.phase, event) {
            (Phase::Idle, Event::Input { line }) => self.input(line),
            (Phase::AwaitingDecision, Event::Classified { reply }) => self.reply(reply),
            (Phase::AwaitingDecision, Event::Unclassified) => {
                self.phase = Phase::Idle;
                self.pending = None;
                Action::Fail
            },
            (Phase::Streaming, Event::Fragment { text, token }) => {
                if token.is_some() {
                    self.pending = token;
                }
                Action::Emit { text }
            },
            (Phase::Streaming, Event::StreamEnded) => {
                self.phase = Phase::Idle;
                self.token = self.pending.take();
                Action::Prompt
            },
            (Phase::Streaming, Event::StreamFailed) => {
                self.phase = Phase::Idle;
                self.pending = None;
                Action::Fail
            },
            (Phase::Dispatching, Event::Handled) => {
                self.phase = Phase::Idle;
                self.pending = None;
                Action::Prompt
            },
            _ => Action::Ignore,
        }
    }
}

} // verus!

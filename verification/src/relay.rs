//! The relay that passes the download manager's notifications on to one
//! chat, as a machine of states: it is told what happened and says what to do
//! next.

use vstd::prelude::*;
use crate::dispatch::LogEntry;
use crate::dispatch::LogEntryView;
use crate::dispatch::LogLevel;
use crate::text::decimal_text;
use crate::text::push_decimal;
use crate::ChatId;

verus! {

/// Where the relay stands.
#[derive(Clone, Copy, Debug, PartialEq, Eq, Structural)]
pub enum RelayState {
    /// Not started.
    Idle,
    /// Started; the subscription to the notifications is being made.
    Subscribed,
    /// Waiting for the next notification.
    Receiving,
    /// A notification is on its way to the chat.
    Delivering,
    /// The stream of notifications has ended for good.
    Closed,
}

/// What happened outside since the relay's last action.
#[derive(Clone, Debug, PartialEq, Eq)]
pub enum RelayInput {
    /// The relay's task was started.
    Started,
    /// The subscription is made.
    Subscribed,
    /// A notification came, here as the text to show.
    Notified(String),
    /// So many notifications were lost because the relay read too slowly.
    Lagged(u64),
    /// No notification will come any more.
    StreamClosed,
    /// The chat took the message.
    Delivered,
    /// The message could not be sent; the text says why.
    DeliveryFailed(String),
}

pub enum RelayInputView {
    Started,
    Subscribed,
    Notified(Seq<char>),
    Lagged(u64),
    StreamClosed,
    Delivered,
    DeliveryFailed(Seq<char>),
}

impl View for RelayInput {
    type V = RelayInputView;

    open spec fn view(&self) -> RelayInputView {
        match self {
            RelayInput::Started => RelayInputView::Started,
            RelayInput::Subscribed => RelayInputView::Subscribed,
            RelayInput::Notified(text) => RelayInputView::Notified(text@),
            RelayInput::Lagged(skipped) => RelayInputView::Lagged(*skipped),
            RelayInput::StreamClosed => RelayInputView::StreamClosed,
            RelayInput::Delivered => RelayInputView::Delivered,
            RelayInput::DeliveryFailed(detail) => RelayInputView::DeliveryFailed(detail@),
        }
    }
}

/// What the relay asks to be done next.
#[derive(Clone, Debug, PartialEq, Eq)]
pub enum RelayAction {
    /// Subscribe to the notifications.
    Subscribe,
    /// Wait for the next notification.
    Receive,
    /// Send this text to this chat.
    Deliver { chat: ChatId, text: String },
    /// End the task.
    Stop,
}

pub enum RelayActionView {
    Subscribe,
    Receive,
    Deliver { chat: ChatId, text: Seq<char> },
    Stop,
}

impl View for RelayAction {
    type V = RelayActionView;

    open spec fn view(&self) -> RelayActionView {
        match self {
            RelayAction::Subscribe => RelayActionView::Subscribe,
            RelayAction::Receive => RelayActionView::Receive,
            RelayAction::Deliver { chat, text } => RelayActionView::Deliver {
                chat: *chat,
                text: text@,
            },
            RelayAction::Stop => RelayActionView::Stop,
        }
    }
}

/// One turn of the relay: what to do next and what to write to the log.
#[derive(Clone, Debug, PartialEq, Eq)]
pub struct Turn {
    pub action: RelayAction,
    pub log: Option<LogEntry>,
}

pub struct TurnView {
    pub action: RelayActionView,
    pub log: Option<LogEntryView>,
}

impl View for Turn {
    type V = TurnView;

    open spec fn view(&self) -> TurnView {
        TurnView {
            action: self.action@,
            log: match self.log {
                Some(entry) => Some(entry@),
                None => None,
            },
        }
    }
}

/// A turn that writes nothing to the log.
pub open spec fn quiet(action: RelayActionView) -> TurnView {
    TurnView { action, log: None }
}

/// A turn that writes one entry to the log.
pub open spec fn noted(action: RelayActionView, level: LogLevel, text: Seq<char>) -> TurnView {
    TurnView { action, log: Some(LogEntryView { level, text }) }
}

/// The relay's transitions: the state that follows `state` on `input` and the
/// turn taken, or `None` where `state` does not wait for `input`.
pub open spec fn step_spec(chat: ChatId, state: RelayState, input: RelayInputView) -> Option<
    (RelayState, TurnView),
> {
    match (state, input) {
        (RelayState::Idle, RelayInputView::Started) => Some(
            (
                RelayState::Subscribed,
                noted(RelayActionView::Subscribe, LogLevel::Debug, "start receive notification"@),
            ),
        ),
        (RelayState::Subscribed, RelayInputView::Subscribed) => Some(
            (RelayState::Receiving, quiet(RelayActionView::Receive)),
        ),
        (RelayState::Receiving, RelayInputView::Notified(text)) => Some(
            (RelayState::Delivering, quiet(RelayActionView::Deliver { chat, text })),
        ),
        (RelayState::Receiving, RelayInputView::Lagged(skipped)) => Some(
            (
                RelayState::Receiving,
                noted(
                    RelayActionView::Receive,
                    LogLevel::Error,
                    "receive notification err: Lagged("@ + decimal_text(skipped as nat) + ")"@,
                ),
            ),
        ),
        (RelayState::Receiving, RelayInputView::StreamClosed) => Some(
            (
                RelayState::Closed,
                noted(RelayActionView::Stop, LogLevel::Debug, "stop receive notification"@),
            ),
        ),
        (RelayState::Delivering, RelayInputView::Delivered) => Some(
            (RelayState::Receiving, quiet(RelayActionView::Receive)),
        ),
        (RelayState::Delivering, RelayInputView::DeliveryFailed(detail)) => Some(
            (
                RelayState::Receiving,
                noted(
                    RelayActionView::Receive,
                    LogLevel::Error,
                    "bot send message err: "@ + detail,
                ),
            ),
        ),
        _ => None,
    }
}

/// Whether a relay for `chat` that stood in `before` and took `input` now
/// stands in `after`, having answered with `turn`.
pub open spec fn follows(
    chat: ChatId,
    before: RelayState,
    input: RelayInputView,
    after: RelayState,
    turn: Option<TurnView>,
) -> bool {
    match step_spec(chat, before, input) {
        Some((next, taken)) => after == next && turn == Some(taken),
        None => after == before && turn is None,
    }
}

/// The view of a turn that may be missing.
pub open spec fn turn_view(turn: Option<Turn>) -> Option<TurnView> {
    match turn {
        Some(taken) => Some(taken@),
        None => None,
    }
}

/// The relay: the chat that every notification goes to, and the state.
#[derive(Clone, Copy, Debug, PartialEq, Eq, Structural)]
pub struct Relay {
    pub chat: ChatId,
    pub state: RelayState,
}

fn quietly(action: RelayAction) -> (turn: Turn)
    ensures
        turn@ == quiet(action@),
{
    Turn { action, log: None }
}

fn noting(action: RelayAction, level: LogLevel, text: String) -> (turn: Turn)
    ensures
        turn@ == noted(action@, level, text@),
{
    Turn { action, log: Some(LogEntry { level, text }) }
}

impl Relay {
    /// A relay for `chat` that has not started.
    pub fn new(chat: ChatId) -> (relay: Relay)
        ensures
            relay == (Relay { chat, state: RelayState::Idle }),
    {
        Relay { chat, state: RelayState::Idle }
    }

    /// Takes one input. Where the state waits for it, the relay moves on and
    /// the turn says what to do next; where it does not, nothing changes.
    pub fn step(&mut self, input: RelayInput) -> (turn: Option<Turn>)
        ensures
            final(self).chat == old(self).chat,
            follows(old(self).chat, old(self).state, input@, final(self).state, turn_view(turn)),
    {
        match self.state {
            RelayState::Idle => match input {
                RelayInput::Started => {
                    self.state = RelayState::Subscribed;
                    Some(
                        noting(
                            RelayAction::Subscribe,
                            LogLevel::Debug,
                            String::from_str("start receive notification"),
                        ),
                    )
                },
                _ => None,
            },
            RelayState::Subscribed => match input {
                RelayInput::Subscribed => {
                    self.state = RelayState::Receiving;
                    Some(quietly(RelayAction::Receive))
                },
                _ => None,
            },
            RelayState::Receiving => match input {
                RelayInput::Notified(text) => {
                    self.state = RelayState::Delivering;
                    Some(quietly(RelayAction::Deliver { chat: self.chat, text }))
                },
                RelayInput::Lagged(skipped) => {
                    let mut text = String::from_str("receive notification err: Lagged(");
                    push_decimal(&mut text, skipped);
                    text.append(")");
                    Some(noting(RelayAction::Receive, LogLevel::Error, text))
                },
                RelayInput::StreamClosed => {
                    self.state = RelayState::Closed;
                    Some(
                        noting(
                            RelayAction::Stop,
                            LogLevel::Debug,
                            String::from_str("stop receive notification"),
                        ),
                    )
                },
                _ => None,
            },
            RelayState::Delivering => match input {
                RelayInput::Delivered => {
                    self.state = RelayState::Receiving;
                    Some(quietly(RelayAction::Receive))
                },
                RelayInput::DeliveryFailed(detail) => {
                    self.state = RelayState::Receiving;
                    let mut text = String::from_str("bot send message err: ");
                    text.append(detail.as_str());
                    Some(noting(RelayAction::Receive, LogLevel::Error, text))
                },
                _ => None,
            },
            RelayState::Closed => None,
        }
    }
}

/// The state of a relay that stood in `state` and took `inputs` one after
/// the other. An input that the state does not wait for changes nothing.
pub open spec fn run(chat: ChatId, state: RelayState, inputs: Seq<RelayInputView>) -> RelayState
    decreases inputs.len(),
{
    if inputs.len() == 0 {
        state
    } else {
        let before = run(chat, state, inputs.drop_last());
        match step_spec(chat, before, inputs.last()) {
            Some((next, _)) => next,
            None => before,
        }
    }
}

/// The texts that such a relay asked to have sent, in the order asked.
pub open spec fn deliveries(chat: ChatId, state: RelayState, inputs: Seq<RelayInputView>) -> Seq<
    Seq<char>,
>
    decreases inputs.len(),
{
    if inputs.len() == 0 {
        Seq::empty()
    } else {
        let earlier = deliveries(chat, state, inputs.drop_last());
        match step_spec(chat, run(chat, state, inputs.drop_last()), inputs.last()) {
            Some((_, taken)) => match taken.action {
                RelayActionView::Deliver { text, .. } => earlier.push(text),
                _ => earlier,
            },
            None => earlier,
        }
    }
}

/// How many of `inputs` are notifications.
pub open spec fn notifications(inputs: Seq<RelayInputView>) -> nat
    decreases inputs.len(),
{
    if inputs.len() == 0 {
        0
    } else if inputs.last() is Notified {
        notifications(inputs.drop_last()) + 1
    } else {
        notifications(inputs.drop_last())
    }
}

/// The inputs of `events.len()` rounds: in each a notification comes and
/// then the word of how its delivery went.
pub open spec fn rounds(events: Seq<Seq<char>>, outcomes: Seq<RelayInputView>) -> Seq<
    RelayInputView,
>
    recommends
        events.len() == outcomes.len(),
    decreases events.len(),
{
    if events.len() == 0 || outcomes.len() == 0 {
        Seq::empty()
    } else {
        rounds(events.drop_last(), outcomes.drop_last()).push(
            RelayInputView::Notified(events.last()),
        ).push(outcomes.last())
    }
}

/// The inputs of a relay's whole life: it is started, subscribes, goes
/// through the rounds, and the stream ends.
pub open spec fn session(events: Seq<Seq<char>>, outcomes: Seq<RelayInputView>) -> Seq<
    RelayInputView,
> {
    (seq![RelayInputView::Started, RelayInputView::Subscribed] + rounds(events, outcomes)).push(
        RelayInputView::StreamClosed,
    )
}

/// Once the stream has ended the relay stays closed and asks for nothing to
/// be sent, whatever comes.
pub proof fn lemma_closed_is_final(chat: ChatId, inputs: Seq<RelayInputView>)
    ensures
        run(chat, RelayState::Closed, inputs) == RelayState::Closed,
        deliveries(chat, RelayState::Closed, inputs) == Seq::<Seq<char>>::empty(),
    decreases inputs.len(),
{
    if inputs.len() > 0 {
        lemma_closed_is_final(chat, inputs.drop_last());
    }
}

/// The relay asks for at most one delivery for each notification that
/// comes, whatever else comes and in whatever order.
pub proof fn lemma_one_delivery_at_most(
    chat: ChatId,
    state: RelayState,
    inputs: Seq<RelayInputView>,
)
    ensures
        deliveries(chat, state, inputs).len() <= notifications(inputs),
    decreases inputs.len(),
{
    if inputs.len() > 0 {
        lemma_one_delivery_at_most(chat, state, inputs.drop_last());
    }
}

/// After any number of rounds the relay waits for the next notification and
/// has asked for each event to be sent once, in the order in which they
/// came, whether the deliveries before went well or not.
pub proof fn lemma_rounds_deliver_in_order(
    chat: ChatId,
    events: Seq<Seq<char>>,
    outcomes: Seq<RelayInputView>,
)
    requires
        events.len() == outcomes.len(),
        forall|i: int|
            0 <= i < outcomes.len() ==> #[trigger] outcomes[i] is Delivered
                || outcomes[i] is DeliveryFailed,
    ensures
        run(chat, RelayState::Receiving, rounds(events, outcomes)) == RelayState::Receiving,
        deliveries(chat, RelayState::Receiving, rounds(events, outcomes)) == events,
    decreases events.len(),
{
    if events.len() > 0 {
        let earlier = rounds(events.drop_last(), outcomes.drop_last());
        lemma_rounds_deliver_in_order(chat, events.drop_last(), outcomes.drop_last());
        let notified = earlier.push(RelayInputView::Notified(events.last()));
        let all = notified.push(outcomes.last());
        assert(notified.drop_last() =~= earlier);
        assert(all.drop_last() =~= notified);
        assert(outcomes.last() == outcomes[outcomes.len() - 1]);
        assert(run(chat, RelayState::Receiving, notified) == RelayState::Delivering);
        assert(deliveries(chat, RelayState::Receiving, notified) == events.drop_last().push(
            events.last(),
        ));
        assert(events.drop_last().push(events.last()) =~= events);
    } else {
        assert(deliveries(chat, RelayState::Receiving, rounds(events, outcomes)) =~= events);
    }
}

/// Taking two runs of inputs one after the other is taking them as one.
pub proof fn lemma_run_in_parts(
    chat: ChatId,
    state: RelayState,
    first: Seq<RelayInputView>,
    second: Seq<RelayInputView>,
)
    ensures
        run(chat, state, first + second) == run(chat, run(chat, state, first), second),
        deliveries(chat, state, first + second) == deliveries(chat, state, first) + deliveries(
            chat,
            run(chat, state, first),
            second,
        ),
    decreases second.len(),
{
    if second.len() == 0 {
        assert(first + second =~= first);
        assert(deliveries(chat, state, first) + Seq::<Seq<char>>::empty() =~= deliveries(
            chat,
            state,
            first,
        ));
    } else {
        lemma_run_in_parts(chat, state, first, second.drop_last());
        assert((first + second).drop_last() =~= first + second.drop_last());
        assert((first + second).last() == second.last());
        let middle = run(chat, state, first);
        match step_spec(chat, run(chat, middle, second.drop_last()), second.last()) {
            Some((_, taken)) => match taken.action {
                RelayActionView::Deliver { text, .. } => {
                    assert((deliveries(chat, state, first) + deliveries(
                        chat,
                        middle,
                        second.drop_last(),
                    )).push(text) =~= deliveries(chat, state, first) + deliveries(
                        chat,
                        middle,
                        second.drop_last(),
                    ).push(text));
                },
                _ => {},
            },
            None => {},
        }
    }
}

/// A relay that is started, sees the events one by one and then the end of
/// the stream, has asked for exactly these events to be sent, each once and
/// in their order, and is closed. A delivery that fails does not keep the
/// next event from being sent.
pub proof fn lemma_session_delivers_every_event(
    chat: ChatId,
    events: Seq<Seq<char>>,
    outcomes: Seq<RelayInputView>,
)
    requires
        events.len() == outcomes.len(),
        forall|i: int|
            0 <= i < outcomes.len() ==> #[trigger] outcomes[i] is Delivered
                || outcomes[i] is DeliveryFailed,
    ensures
        run(chat, RelayState::Idle, session(events, outcomes)) == RelayState::Closed,
        deliveries(chat, RelayState::Idle, session(events, outcomes)) == events,
{
    let opening = seq![RelayInputView::Started, RelayInputView::Subscribed];
    let middle = rounds(events, outcomes);
    let closing = seq![RelayInputView::StreamClosed];
    let none = Seq::<RelayInputView>::empty();
    let start = opening.drop_last();
    assert(start.drop_last() =~= none);
    assert(start.last() == RelayInputView::Started);
    assert(opening.last() == RelayInputView::Subscribed);
    assert(run(chat, RelayState::Idle, start.drop_last()) == RelayState::Idle);
    assert(run(chat, RelayState::Idle, start) == RelayState::Subscribed);
    assert(run(chat, RelayState::Idle, opening) == RelayState::Receiving);
    assert(deliveries(chat, RelayState::Idle, start.drop_last()) =~= Seq::<Seq<char>>::empty());
    assert(deliveries(chat, RelayState::Idle, start) =~= Seq::<Seq<char>>::empty());
    assert(deliveries(chat, RelayState::Idle, opening) =~= Seq::<Seq<char>>::empty());
    lemma_rounds_deliver_in_order(chat, events, outcomes);
    lemma_run_in_parts(chat, RelayState::Idle, opening, middle);
    assert(closing.drop_last() =~= none);
    assert(closing.last() == RelayInputView::StreamClosed);
    assert(run(chat, RelayState::Receiving, closing.drop_last()) == RelayState::Receiving);
    assert(run(chat, RelayState::Receiving, closing) == RelayState::Closed);
    assert(deliveries(chat, RelayState::Receiving, closing.drop_last()) =~= Seq::<
        Seq<char>,
    >::empty());
    assert(deliveries(chat, RelayState::Receiving, closing) =~= Seq::<Seq<char>>::empty());
    lemma_run_in_parts(chat, RelayState::Idle, opening + middle, closing);
    assert(session(events, outcomes) =~= opening + middle + closing);
    assert(deliveries(chat, RelayState::Idle, session(events, outcomes)) =~= events);
}

} // verus!

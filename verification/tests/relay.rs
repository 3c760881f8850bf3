use download_bot::dispatch::LogEntry;
use download_bot::dispatch::LogLevel;
use download_bot::relay::Relay;
use download_bot::relay::RelayAction;
use download_bot::relay::RelayInput;
use download_bot::relay::RelayState;
use download_bot::relay::Turn;
use download_bot::ChatId;
use tokio::sync::broadcast::error::RecvError;

/// What the stream gives at one receive.
#[derive(Clone)]
enum Feed {
    Event(&'static str),
    Lagged(u64),
    Closed,
}

/// Runs a relay over a feed; `fails` says which deliveries fail. Gives the
/// delivery attempts, the log and the state at the end.
fn run_relay(feed: &[Feed], fails: &[bool]) -> (Vec<(ChatId, String)>, Vec<LogEntry>, RelayState) {
    let mut relay = Relay::new(ChatId(42));
    let mut attempts = Vec::new();
    let mut log = Vec::new();
    let mut feed = feed.iter().cloned();
    let mut input = RelayInput::Started;
    let mut turns = 0;
    loop {
        turns += 1;
        assert!(turns < 1000, "the relay does not end");
        let turn = relay.step(input).expect("the relay waits for what it asked for");
        log.extend(turn.log);
        input = match turn.action {
            RelayAction::Subscribe => RelayInput::Subscribed,
            RelayAction::Receive => match feed.next().unwrap_or(Feed::Closed) {
                Feed::Event(text) => RelayInput::Notified(text.to_string()),
                Feed::Lagged(skipped) => RelayInput::Lagged(skipped),
                Feed::Closed => RelayInput::StreamClosed,
            },
            RelayAction::Deliver { chat, text } => {
                let failed = fails.get(attempts.len()).copied().unwrap_or(false);
                attempts.push((chat, text));
                if failed {
                    RelayInput::DeliveryFailed("Network(timeout)".to_string())
                } else {
                    RelayInput::Delivered
                }
            }
            RelayAction::Stop => break,
        };
    }
    (attempts, log, relay.state)
}

fn debug(text: &str) -> LogEntry {
    LogEntry { level: LogLevel::Debug, text: text.to_string() }
}

fn error(text: &str) -> LogEntry {
    LogEntry { level: LogLevel::Error, text: text.to_string() }
}

#[test]
fn relay_delivers_two_events_then_stops() {
    let feed = [Feed::Event("E1"), Feed::Event("E2"), Feed::Closed, Feed::Event("E3")];
    let (attempts, log, state) = run_relay(&feed, &[]);
    assert_eq!(attempts, vec![(ChatId(42), "E1".to_string()), (ChatId(42), "E2".to_string())]);
    assert_eq!(state, RelayState::Closed);
    assert_eq!(log, vec![debug("start receive notification"), debug("stop receive notification")]);
}

#[test]
fn failed_delivery_does_not_stop_the_relay() {
    let feed = [Feed::Event("E1"), Feed::Event("E2"), Feed::Closed];
    let (attempts, log, state) = run_relay(&feed, &[true, false]);
    assert_eq!(attempts, vec![(ChatId(42), "E1".to_string()), (ChatId(42), "E2".to_string())]);
    assert_eq!(state, RelayState::Closed);
    assert_eq!(
        log,
        vec![
            debug("start receive notification"),
            error("bot send message err: Network(timeout)"),
            debug("stop receive notification"),
        ]
    );
}

#[test]
fn lost_events_are_logged_and_the_relay_goes_on() {
    let feed = [Feed::Event("E1"), Feed::Lagged(3), Feed::Event("E5"), Feed::Closed];
    let (attempts, log, state) = run_relay(&feed, &[]);
    assert_eq!(attempts, vec![(ChatId(42), "E1".to_string()), (ChatId(42), "E5".to_string())]);
    assert_eq!(state, RelayState::Closed);
    assert_eq!(
        log,
        vec![
            debug("start receive notification"),
            error("receive notification err: Lagged(3)"),
            debug("stop receive notification"),
        ]
    );
}

#[test]
fn closed_relay_takes_nothing_more() {
    let mut relay = Relay { chat: ChatId(1), state: RelayState::Closed };
    for input in [
        RelayInput::Started,
        RelayInput::Subscribed,
        RelayInput::Notified("E".to_string()),
        RelayInput::Lagged(1),
        RelayInput::StreamClosed,
        RelayInput::Delivered,
        RelayInput::DeliveryFailed("x".to_string()),
    ] {
        assert_eq!(relay.step(input), None);
        assert_eq!(relay.state, RelayState::Closed);
    }
}

#[test]
fn unexpected_input_changes_nothing() {
    let mut relay = Relay::new(ChatId(1));
    assert_eq!(relay, Relay { chat: ChatId(1), state: RelayState::Idle });
    assert_eq!(relay.step(RelayInput::Notified("E".to_string())), None);
    assert_eq!(relay.step(RelayInput::StreamClosed), None);
    assert_eq!(relay.state, RelayState::Idle);

    let mut relay = Relay { chat: ChatId(1), state: RelayState::Delivering };
    assert_eq!(relay.step(RelayInput::Notified("E".to_string())), None);
    assert_eq!(relay.step(RelayInput::StreamClosed), None);
    assert_eq!(relay.state, RelayState::Delivering);

    let mut relay = Relay { chat: ChatId(1), state: RelayState::Receiving };
    assert_eq!(relay.step(RelayInput::Delivered), None);
    assert_eq!(relay.state, RelayState::Receiving);
}

#[test]
fn each_state_moves_as_the_table_says() {
    let chat = ChatId(9);
    let mut relay = Relay::new(chat);
    assert_eq!(
        relay.step(RelayInput::Started),
        Some(Turn {
            action: RelayAction::Subscribe,
            log: Some(debug("start receive notification"))
        })
    );
    assert_eq!(relay.state, RelayState::Subscribed);
    assert_eq!(
        relay.step(RelayInput::Subscribed),
        Some(Turn { action: RelayAction::Receive, log: None })
    );
    assert_eq!(relay.state, RelayState::Receiving);
    assert_eq!(
        relay.step(RelayInput::Notified("done: a.iso".to_string())),
        Some(Turn {
            action: RelayAction::Deliver { chat, text: "done: a.iso".to_string() },
            log: None
        })
    );
    assert_eq!(relay.state, RelayState::Delivering);
    assert_eq!(
        relay.step(RelayInput::Delivered),
        Some(Turn { action: RelayAction::Receive, log: None })
    );
    assert_eq!(relay.state, RelayState::Receiving);
    assert_eq!(
        relay.step(RelayInput::Lagged(18446744073709551615)),
        Some(Turn {
            action: RelayAction::Receive,
            log: Some(error("receive notification err: Lagged(18446744073709551615)"))
        })
    );
    assert_eq!(relay.state, RelayState::Receiving);
    assert_eq!(
        relay.step(RelayInput::StreamClosed),
        Some(Turn { action: RelayAction::Stop, log: Some(debug("stop receive notification")) })
    );
    assert_eq!(relay.state, RelayState::Closed);
    assert_eq!(relay.chat, chat);
}

/// Turns a failed receive into the relay's input, as the caller of the relay does.
fn input_of(fault: RecvError) -> RelayInput {
    match fault {
        RecvError::Closed => RelayInput::StreamClosed,
        RecvError::Lagged(skipped) => RelayInput::Lagged(skipped),
    }
}

#[test]
fn receive_errors_are_told_apart() {
    let mut relay = Relay { chat: ChatId(5), state: RelayState::Receiving };
    assert_eq!(
        relay.step(input_of(RecvError::Lagged(7))),
        Some(Turn {
            action: RelayAction::Receive,
            log: Some(error("receive notification err: Lagged(7)"))
        })
    );
    assert_eq!(relay.state, RelayState::Receiving);
    assert_eq!(
        relay.step(input_of(RecvError::Closed)),
        Some(Turn { action: RelayAction::Stop, log: Some(debug("stop receive notification")) })
    );
    assert_eq!(relay.state, RelayState::Closed);
    assert_eq!(relay.step(input_of(RecvError::Closed)), None);
    assert_eq!(relay.state, RelayState::Closed);
}

#[test]
fn lagged_log_is_the_debug_text_of_the_error() {
    for skipped in [0u64, 1, 12, 4096, u64::MAX] {
        let mut relay = Relay { chat: ChatId(5), state: RelayState::Receiving };
        let fault = RecvError::Lagged(skipped);
        let expected = format!("receive notification err: {:?}", fault);
        let turn = relay.step(input_of(fault)).unwrap();
        assert_eq!(turn.log.unwrap().text, expected);
    }
}

use blossom::command::Vocabulary;
use blossom::dispatch::{DispatchError, HandlerCall};
use blossom::session::{Action, Event, Phase, Session};

const CONVERSE: &str =
    r#"<converse name="converse"><argument name="input" type="String" value="hello"/></converse>"#;

fn line(text: &str) -> Event<Vec<i32>> {
    Event::Input {
        line: text.to_string(),
    }
}

fn fragment(text: &str, token: Option<Vec<i32>>) -> Event<Vec<i32>> {
    Event::Fragment {
        text: text.to_string(),
        token,
    }
}

/// A session that has just entered `Streaming`, after `turns` earlier turns
/// that stored the token `[turn]`.
fn streaming(turns: i32) -> Session<Vec<i32>> {
    let mut session = Session::new(Vocabulary::WithBye);
    for turn in 1..=turns {
        start_stream(&mut session);
        assert_eq!(
            session.step(fragment("x", Some(vec![turn]))),
            Action::Emit {
                text: "x".to_string()
            }
        );
        assert_eq!(session.step(Event::StreamEnded), Action::Prompt);
    }
    start_stream(&mut session);
    session
}

fn start_stream(session: &mut Session<Vec<i32>>) {
    assert_eq!(
        session.step(line("hi\n")),
        Action::Classify {
            message: "hi".to_string()
        }
    );
    assert_eq!(session.phase(), Phase::AwaitingDecision);
    assert_eq!(
        session.step(Event::Classified {
            reply: CONVERSE.to_string()
        }),
        Action::Generate {
            input: "hello".to_string()
        }
    );
    assert_eq!(session.phase(), Phase::Streaming);
}

#[test]
fn new_session_is_idle_without_token() {
    let session: Session<Vec<i32>> = Session::new(Vocabulary::Plain);
    assert_eq!(session.phase(), Phase::Idle);
    assert_eq!(session.token(), None);
    assert!(!session.is_terminated());
}

#[test]
fn streaming_turn_emits_fragments_and_stores_the_last_token_once() {
    let mut session = streaming(0);
    let mut sink = String::new();
    let mut updates = 0;
    let events = vec![
        fragment("Hel", None),
        fragment("lo", Some(vec![7, 8])),
        Event::StreamEnded,
    ];
    let mut emitted_lo_before_update = false;
    for event in events {
        let before = session.token().cloned();
        let action = session.step(event);
        if let Action::Emit { text } = &action {
            sink.push_str(text);
        }
        if session.token().cloned() != before {
            updates += 1;
            emitted_lo_before_update = sink == "Hello";
        }
    }
    assert_eq!(sink, "Hello");
    assert_eq!(updates, 1);
    assert!(emitted_lo_before_update);
    assert_eq!(session.token(), Some(&vec![7, 8]));
    assert_eq!(session.phase(), Phase::Idle);
}

#[test]
fn last_token_bearing_fragment_wins() {
    let mut session = streaming(0);
    session.step(fragment("a", Some(vec![1])));
    session.step(fragment("b", Some(vec![2])));
    session.step(fragment("c", None));
    assert_eq!(session.token(), None);
    assert_eq!(session.step(Event::StreamEnded), Action::Prompt);
    assert_eq!(session.token(), Some(&vec![2]));
}

#[test]
fn stream_without_token_clears_the_stored_token() {
    let mut session = streaming(1);
    assert_eq!(session.token(), Some(&vec![1]));
    session.step(fragment("a", None));
    assert_eq!(session.step(Event::StreamEnded), Action::Prompt);
    assert_eq!(session.token(), None);
    assert_eq!(session.phase(), Phase::Idle);
}

#[test]
fn failed_stream_leaves_the_stored_token_unchanged() {
    let mut session = streaming(1);
    assert_eq!(session.token(), Some(&vec![1]));
    assert_eq!(session.step(Event::StreamFailed), Action::Fail);
    assert_eq!(session.token(), Some(&vec![1]));
    assert_eq!(session.phase(), Phase::Idle);

    start_stream(&mut session);
    session.step(fragment("partial", Some(vec![9])));
    assert_eq!(session.step(Event::StreamFailed), Action::Fail);
    assert_eq!(session.token(), Some(&vec![1]));
    assert_eq!(session.phase(), Phase::Idle);
}

#[test]
fn exit_and_slash_exit_terminate_from_idle() {
    for word in ["exit", "/exit", "EXIT", "  /Exit  \n"] {
        for vocabulary in [Vocabulary::Plain, Vocabulary::WithBye] {
            let mut session: Session<Vec<i32>> = Session::new(vocabulary);
            assert_eq!(session.step(line(word)), Action::Farewell);
            assert_eq!(session.phase(), Phase::Terminated);
            assert!(session.is_terminated());
        }
    }
}

#[test]
fn bye_terminates_only_where_declared() {
    let mut with_bye: Session<Vec<i32>> = Session::new(Vocabulary::WithBye);
    assert_eq!(with_bye.step(line("bye")), Action::Farewell);
    assert_eq!(with_bye.phase(), Phase::Terminated);

    let mut plain: Session<Vec<i32>> = Session::new(Vocabulary::Plain);
    assert_eq!(
        plain.step(line("bye")),
        Action::Classify {
            message: "bye".to_string()
        }
    );
    assert_eq!(plain.phase(), Phase::AwaitingDecision);
}

#[test]
fn plain_session_sends_other_lines_to_the_model() {
    for text in ["exit now", "/attach a.txt"] {
        let mut plain: Session<Vec<i32>> = Session::new(Vocabulary::Plain);
        assert_eq!(
            plain.step(line(text)),
            Action::Classify {
                message: text.to_string()
            }
        );
        assert_eq!(plain.phase(), Phase::AwaitingDecision);
    }
}

#[test]
fn exit_releases_the_token_and_terminated_absorbs() {
    let mut session = streaming(1);
    session.step(Event::StreamFailed);
    assert_eq!(session.token(), Some(&vec![1]));
    assert_eq!(session.step(line("exit")), Action::Farewell);
    assert_eq!(session.token(), None);
    for event in [
        line("hello"),
        Event::Classified {
            reply: CONVERSE.to_string(),
        },
        Event::Unclassified,
        fragment("x", Some(vec![3])),
        Event::StreamEnded,
        Event::StreamFailed,
        Event::Handled,
    ] {
        assert_eq!(session.step(event), Action::Ignore);
        assert_eq!(session.phase(), Phase::Terminated);
        assert_eq!(session.token(), None);
    }
}

#[test]
fn exit_is_honored_only_between_turns() {
    let mut session = streaming(0);
    assert_eq!(session.step(line("exit")), Action::Ignore);
    assert_eq!(session.phase(), Phase::Streaming);
}

#[test]
fn malformed_reply_drops_the_turn() {
    let mut session = streaming(1);
    session.step(Event::StreamFailed);
    session.step(line("what is this"));
    assert_eq!(
        session.step(Event::Classified {
            reply: "I think you want <converse".to_string()
        }),
        Action::Reject {
            payload: "I think you want <converse".to_string()
        }
    );
    assert_eq!(session.phase(), Phase::Idle);
    assert_eq!(session.token(), Some(&vec![1]));
}

#[test]
fn dispatch_failure_is_reported_and_the_session_continues() {
    let mut session: Session<Vec<i32>> = Session::new(Vocabulary::WithBye);
    session.step(line("fly me to the moon"));
    assert_eq!(
        session.step(Event::Classified {
            reply: r#"<fly name="fly"/>"#.to_string()
        }),
        Action::Warn {
            error: DispatchError::UnknownTool
        }
    );
    assert_eq!(session.phase(), Phase::Idle);
    session.step(line("again"));
    assert_eq!(
        session.step(Event::Classified {
            reply: r#"<converse name="converse"/>"#.to_string()
        }),
        Action::Warn {
            error: DispatchError::ArityMismatch
        }
    );
    assert_eq!(session.phase(), Phase::Idle);
    assert_eq!(
        session.step(line("still here")),
        Action::Classify {
            message: "still here".to_string()
        }
    );
}

#[test]
fn failed_classification_returns_to_idle() {
    let mut session: Session<Vec<i32>> = Session::new(Vocabulary::WithBye);
    session.step(line("hello"));
    assert_eq!(session.step(Event::Unclassified), Action::Fail);
    assert_eq!(session.phase(), Phase::Idle);
}

#[test]
fn other_tools_are_invoked_and_return_to_idle() {
    let mut session: Session<Vec<i32>> = Session::new(Vocabulary::WithBye);
    session.step(line("look at images/1.jpg"));
    assert_eq!(
        session.step(Event::Classified {
            reply: r#"<image name="image"><argument name="path" type="PathBuf" value="images/1.jpg"/></image>"#
                .to_string()
        }),
        Action::Invoke {
            call: HandlerCall::Image {
                path: "images/1.jpg".to_string()
            }
        }
    );
    assert_eq!(session.phase(), Phase::Dispatching);
    assert_eq!(session.step(Event::Handled), Action::Prompt);
    assert_eq!(session.phase(), Phase::Idle);
}

#[test]
fn attach_stays_idle() {
    let mut session: Session<Vec<i32>> = Session::new(Vocabulary::WithBye);
    assert_eq!(
        session.step(line("/attach a.txt b.txt")),
        Action::Attach {
            paths: vec!["a.txt".to_string(), "b.txt".to_string()]
        }
    );
    assert_eq!(session.phase(), Phase::Idle);
}

use gemini_live::session::{Action, Input, Received, Session};
use gemini_live::types::{
    synth_reason, AffectLabel, ClientConfig, CloseReason, Event, Model, Role, ServerEvent,
    SessionError, SetupConfig, TransportError,
};
use serde_json::Value;
use std::collections::VecDeque;
use std::time::Duration;

fn cfg() -> ClientConfig {
    let mut schema = serde_json::Map::new();
    schema.insert("type".to_string(), Value::from("object"));
    ClientConfig {
        model: Model::HalfCascade,
        api_key: "K".into(),
        proxy: None,
        setup: SetupConfig {
            model: Model::HalfCascade,
            voice: "Autonoe".into(),
            language: Some("en-US".into()),
            system_instruction: "Be nice.".into(),
            temperature: Value::from(0.8f32),
            goal_schema: Value::from(schema),
            resume_handle: None,
        },
    }
}

/// The number that a base64 symbol stands for.
fn sextet(symbol: u8) -> u32 {
    match symbol {
        b'A'..=b'Z' => (symbol - b'A') as u32,
        b'a'..=b'z' => (symbol - b'a') as u32 + 26,
        b'0'..=b'9' => (symbol - b'0') as u32 + 52,
        b'+' => 62,
        _ => 63,
    }
}

/// Little-endian PCM16 out of base64.
fn samples(text: &str) -> Vec<i16> {
    let mut bits: u32 = 0;
    let mut held = 0;
    let mut bytes: Vec<u8> = Vec::new();
    for symbol in text.bytes().filter(|symbol| *symbol != b'=') {
        bits = bits << 6 | sextet(symbol);
        held += 6;
        if held >= 8 {
            held -= 8;
            bytes.push((bits >> held) as u8);
        }
    }
    bytes.chunks(2).map(|pair| i16::from_le_bytes([pair[0], pair[1]])).collect()
}

/// Reads the frames that the scripts below hold.
fn read(frame: &[u8]) -> Received {
    let frame: Value = match serde_json::from_slice(frame) {
        Ok(frame) => frame,
        Err(_) => return Received::Malformed,
    };
    let mut events = Vec::new();
    if frame.get("setupComplete").is_some() {
        events.push(ServerEvent::SetupComplete);
    }
    let content = &frame["serverContent"];
    if let Some(parts) = content["modelTurn"]["parts"].as_array() {
        for part in parts {
            let data = part["inlineData"]["data"].as_str().unwrap();
            events.push(ServerEvent::OutputAudio(samples(data)));
        }
    }
    if let Some(text) = content["outputTranscription"]["text"].as_str() {
        events.push(ServerEvent::Transcript {
            role: Role::Model,
            text: text.to_string(),
            final_: content["outputTranscription"]["finished"] == true,
        });
    }
    if content["turnComplete"] == true {
        events.push(ServerEvent::TurnComplete);
    }
    if content["interrupted"] == true {
        events.push(ServerEvent::Interrupted);
    }
    if let Some(calls) = frame["toolCall"]["functionCalls"].as_array() {
        for call in calls {
            events.push(ServerEvent::ToolCall {
                name: call["name"].as_str().unwrap().to_string(),
                id: call["id"].as_str().unwrap().to_string(),
                args: call["args"].clone(),
            });
        }
    }
    if let Some(handle) = frame["sessionResumptionUpdate"]["newHandle"].as_str() {
        events.push(ServerEvent::ResumptionHandle(handle.to_string()));
    }
    if frame.get("goAway").is_some() {
        events.push(ServerEvent::GoAway);
    }
    Received::Frame(events)
}

/// A scripted connection.
struct Fake {
    script: VecDeque<Received>,
    send_fails: bool,
}

impl Fake {
    fn new() -> Fake {
        Fake { script: VecDeque::new(), send_fails: false }
    }

    fn push_data(&mut self, frame: &[u8]) {
        self.script.push_back(read(frame));
    }

    fn push_events(&mut self, events: Vec<ServerEvent>) {
        self.script.push_back(Received::Frame(events));
    }

    fn push_close(&mut self, code: u16, reason: &str) {
        let reason = CloseReason { code, reason: reason.to_string() };
        self.script.push_back(Received::Failed(TransportError::Closed(reason)));
    }
}

/// A session over scripted connections; `spares` are what successive attempts to reconnect find.
struct Harness {
    session: Session,
    transport: Fake,
    spares: VecDeque<Option<Fake>>,
    sent: Vec<String>,
    slept: Vec<Duration>,
    attempts: usize,
}

impl Harness {
    fn connect(cfg: ClientConfig, transport: Fake, spares: Vec<Option<Fake>>) -> Harness {
        let mut session = Session::start(cfg);
        let sent = vec![session.setup_frame()];
        session.open(false, Ok(())).unwrap();
        Harness {
            session,
            transport,
            spares: spares.into_iter().collect(),
            sent,
            slept: Vec::new(),
            attempts: 0,
        }
    }

    fn next_event(&mut self) -> Option<Event> {
        let mut input = Input::Poll;
        loop {
            assert!(self.session.can_take(&input));
            input = match self.session.next_event(input) {
                Action::Return(event) => return event,
                Action::Receive => {
                    Input::Received(self.transport.script.pop_front().unwrap_or(Received::Ended))
                }
                Action::Connect => {
                    self.attempts += 1;
                    match self.spares.pop_front() {
                        Some(Some(fresh)) => {
                            self.transport = fresh;
                            Input::Connected(true)
                        }
                        _ => Input::Connected(false),
                    }
                }
                Action::SendSetup(text) => {
                    if self.transport.send_fails {
                        Input::SetupSent(Err(TransportError::Send("broken".into())))
                    } else {
                        self.sent.push(text);
                        Input::SetupSent(Ok(()))
                    }
                }
                Action::Sleep(delay) => {
                    self.slept.push(delay);
                    Input::Slept
                }
            };
        }
    }
}

fn handle_in(setup: &str) -> Value {
    let setup: Value = serde_json::from_str(setup).unwrap();
    setup["setup"]["sessionResumption"]["handle"].clone()
}

#[test]
fn first_open_emits_session_opened_and_sends_setup() {
    let mut s = Harness::connect(cfg(), Fake::new(), vec![]);
    let ev = s.next_event();
    assert!(matches!(ev, Some(Event::SessionOpened { is_reconnect: false })));
    // setup was the first outgoing frame.
    assert!(s.sent[0].contains("\"setup\""));
}

#[test]
fn events_surface_in_order_from_scripted_frames() {
    // base64 "AAABAAIAAwA=" -> i16 LE [0,1,2,3].
    let mut fake = Fake::new();
    fake.push_data(br#"{"setupComplete":{}}"#);
    fake.push_data(
        br#"{"serverContent":{"modelTurn":{"parts":[{"inlineData":{"data":"AAABAAIAAwA="}}]}}}"#,
    );
    fake.push_data(
        br#"{"serverContent":{"outputTranscription":{"text":"Hi","finished":true}}}"#,
    );
    fake.push_data(
        br#"{"toolCall":{"functionCalls":[{"name":"end_call","id":"c1","args":{"d":"x"}}]}}"#,
    );
    fake.push_data(br#"{"serverContent":{"turnComplete":true}}"#);
    fake.push_data(br#"{"serverContent":{"interrupted":true}}"#);

    let mut s = Harness::connect(cfg(), fake, vec![]);

    assert!(matches!(s.next_event(), Some(Event::SessionOpened { is_reconnect: false })));
    // setupComplete surfaces nothing; audio is next.
    assert!(matches!(s.next_event(), Some(Event::OutputAudio(a)) if a == vec![0, 1, 2, 3]));
    assert!(matches!(
        s.next_event(),
        Some(Event::Transcript { role: Role::Model, text, final_: true }) if text == "Hi"
    ));
    assert!(matches!(
        s.next_event(),
        Some(Event::ToolCall { name, id, .. }) if name == "end_call" && id == "c1"
    ));
    assert!(matches!(s.next_event(), Some(Event::TurnComplete)));
    assert!(matches!(s.next_event(), Some(Event::Interrupted)));
}

#[test]
fn resumption_handle_stored_not_surfaced_then_replayed_on_reconnect() {
    let mut first = Fake::new();
    first.push_data(br#"{"setupComplete":{}}"#);
    first.push_data(br#"{"sessionResumptionUpdate":{"newHandle":"H1"}}"#);
    first.push_close(1011, "server restart");

    let mut s = Harness::connect(cfg(), first, vec![Some(Fake::new())]);

    assert!(matches!(s.next_event(), Some(Event::SessionOpened { is_reconnect: false })));
    // The handle update surfaces nothing on its own; the next event is the transparent reopen
    // after the scripted close.
    assert!(matches!(s.next_event(), Some(Event::SessionOpened { is_reconnect: true })));

    // The reopen re-sent setup carrying the stored handle.
    let setup = &s.sent[1];
    assert!(setup.contains("\"setup\""));
    assert!(setup.contains("H1"), "reopened setup must carry the stored handle: {setup}");
}

#[test]
fn send_audio_is_byte_identical_to_kutsu() {
    let mut s = Harness::connect(cfg(), Fake::new(), vec![]);
    let _ = s.next_event(); // SessionOpened

    let text = s.session.send_audio(&[0i16, 1i16]);
    s.sent.push(text);

    assert_eq!(
        s.sent.last().unwrap(),
        r#"{"realtime_input":{"audio":{"data":"AAABAA==","mimeType":"audio/pcm;rate=16000"}}}"#
    );
}

#[test]
fn terminal_close_emits_session_closed_then_none() {
    let mut fake = Fake::new();
    fake.push_data(br#"{"setupComplete":{}}"#);
    fake.push_close(1011, "boom");

    // No connection to be had: reconnection is exhausted.
    let mut s = Harness::connect(cfg(), fake, vec![]);

    assert!(matches!(s.next_event(), Some(Event::SessionOpened { is_reconnect: false })));
    // Drives: setupComplete -> close -> failed reconnects -> terminal.
    match s.next_event() {
        Some(Event::SessionClosed { reason }) => assert_eq!(reason.code, 1011),
        other => panic!("expected SessionClosed, got {other:?}"),
    }
    // Stream has ended.
    assert!(s.next_event().is_none());
}

#[test]
fn reconnect_is_given_up_after_eight_attempts_and_seven_delays() {
    let mut fake = Fake::new();
    fake.push_data(br#"{"setupComplete":{}}"#);
    fake.push_close(1006, "gone");
    let mut s = Harness::connect(cfg(), fake, vec![]);
    s.next_event();
    match s.next_event() {
        Some(Event::SessionClosed { reason }) => {
            assert_eq!(reason.code, 1006);
            assert_eq!(reason.reason, "gone");
        }
        other => panic!("expected SessionClosed, got {other:?}"),
    }
    assert_eq!(s.attempts, 8);
    let delays: Vec<u128> = s.slept.iter().map(|delay| delay.as_millis()).collect();
    assert_eq!(delays, vec![300, 600, 1200, 2400, 4800, 5000, 5000]);
    assert!(s.next_event().is_none());
    assert!(s.next_event().is_none());
    assert_eq!(s.attempts, 8);
}

#[test]
fn failed_setup_on_a_fresh_connection_is_a_failed_attempt() {
    let mut fake = Fake::new();
    fake.push_data(br#"{"sessionResumptionUpdate":{"newHandle":"H1"}}"#);
    fake.push_close(1000, "bye");
    let mut broken = Fake::new();
    broken.send_fails = true;
    let mut s = Harness::connect(cfg(), fake, vec![Some(broken), None, Some(Fake::new())]);
    s.next_event();
    assert!(matches!(s.next_event(), Some(Event::SessionOpened { is_reconnect: true })));
    assert_eq!(s.attempts, 3);
    assert_eq!(s.slept.len(), 2);
    // Two failures after a success leave the handle fresh.
    assert_eq!(handle_in(&s.sent[1]), "H1");
}

#[test]
fn handle_is_dropped_at_the_fourth_failure_in_a_row() {
    let mut fake = Fake::new();
    fake.push_data(br#"{"sessionResumptionUpdate":{"newHandle":"H1"}}"#);
    fake.push_close(1000, "bye");
    let spares = vec![None, None, None, None, Some(Fake::new())];
    let mut s = Harness::connect(cfg(), fake, spares);
    s.next_event();
    assert!(matches!(s.next_event(), Some(Event::SessionOpened { is_reconnect: true })));
    assert!(handle_in(&s.sent[1]).is_null());
}

#[test]
fn resumable_end_is_a_failure_even_after_progress() {
    // The end counts one failure, three attempts count three more: the handle is stale.
    let mut fake = Fake::new();
    fake.push_data(br#"{"sessionResumptionUpdate":{"newHandle":"H1"}}"#);
    fake.push_data(br#"{"goAway":{}}"#);
    let mut s = Harness::connect(cfg(), fake, vec![None, None, None, Some(Fake::new())]);
    s.next_event();
    assert!(matches!(s.next_event(), Some(Event::SessionOpened { is_reconnect: true })));
    assert!(handle_in(&s.sent[1]).is_null());
}

#[test]
fn first_setup_carries_the_configured_handle() {
    let mut resumed = cfg();
    resumed.setup.resume_handle = Some("H0".into());
    let s = Harness::connect(resumed, Fake::new(), vec![]);
    assert_eq!(handle_in(&s.sent[0]), "H0");
}

#[test]
fn latest_handle_wins() {
    let mut fake = Fake::new();
    fake.push_events(vec![
        ServerEvent::ResumptionHandle("H1".into()),
        ServerEvent::ResumptionHandle("H2".into()),
    ]);
    fake.push_close(1000, "bye");
    let mut s = Harness::connect(cfg(), fake, vec![Some(Fake::new())]);
    s.next_event();
    s.next_event();
    assert_eq!(handle_in(&s.sent[1]), "H2");
}

#[test]
fn events_around_a_go_away_are_drained_before_the_reconnect() {
    let mut fake = Fake::new();
    fake.push_events(vec![
        ServerEvent::Interrupted,
        ServerEvent::GoAway,
        ServerEvent::Affect { role: Role::User, label: AffectLabel { name: "calm".into() } },
        ServerEvent::TurnComplete,
    ]);
    let mut s = Harness::connect(cfg(), fake, vec![Some(Fake::new())]);
    s.next_event();
    assert!(matches!(s.next_event(), Some(Event::Interrupted)));
    assert!(matches!(
        s.next_event(),
        Some(Event::Affect { role: Role::User, label }) if label.name == "calm"
    ));
    assert!(matches!(s.next_event(), Some(Event::TurnComplete)));
    assert_eq!(s.attempts, 0);
    assert!(matches!(s.next_event(), Some(Event::SessionOpened { is_reconnect: true })));
    assert_eq!(s.attempts, 1);
}

#[test]
fn malformed_frames_are_skipped() {
    let mut fake = Fake::new();
    fake.push_data(b"not json");
    fake.push_data(br#"{"serverContent":{"turnComplete":true}}"#);
    let mut s = Harness::connect(cfg(), fake, vec![]);
    s.next_event();
    assert!(matches!(s.next_event(), Some(Event::TurnComplete)));
}

#[test]
fn synthetic_reasons_name_the_end() {
    let mut failing = Fake::new();
    failing.script.push_back(Received::Failed(TransportError::Protocol("odd".into())));
    let mut ending = Fake::new();
    ending.script.push_back(Received::Ended);
    let mut leaving = Fake::new();
    leaving.push_data(br#"{"goAway":{}}"#);
    let expected = vec!["transport error", "stream ended", "goAway"];
    for (fake, name) in vec![failing, ending, leaving].into_iter().zip(expected) {
        let mut s = Harness::connect(cfg(), fake, vec![]);
        s.next_event();
        match s.next_event() {
            Some(Event::SessionClosed { reason }) => {
                assert_eq!(reason.code, 0);
                assert_eq!(reason.reason, name);
            }
            other => panic!("expected SessionClosed, got {other:?}"),
        }
    }
}

#[test]
fn delays_escalate_over_reconnects_without_progress_and_start_over_with_it() {
    let mut first = Fake::new();
    first.push_close(1011, "early");
    let mut second = Fake::new();
    second.push_data(br#"{"setupComplete":{}}"#);
    second.push_close(1011, "late");
    let spares = vec![None, Some(second), None, Some(Fake::new()), None, Some(Fake::new())];
    let mut s = Harness::connect(cfg(), first, spares);
    for _ in 0..4 {
        s.next_event();
    }
    let delays: Vec<u128> = s.slept.iter().map(|delay| delay.as_millis()).collect();
    // The second connection made progress, the third did not.
    assert_eq!(delays, vec![300, 300, 600]);
}

#[test]
fn abandoned_reconnect_is_forgotten() {
    let mut session = Session::start(cfg());
    session.open(false, Ok(())).unwrap();
    assert!(matches!(session.next_event(Input::Poll), Action::Return(Some(_))));
    assert!(matches!(session.next_event(Input::Poll), Action::Receive));
    let ended = Input::Received(Received::Ended);
    assert!(matches!(session.next_event(ended), Action::Connect));
    assert!(matches!(session.next_event(Input::Poll), Action::Receive));
}

#[test]
fn unsent_first_setup_is_an_error() {
    let mut session = Session::start(cfg());
    let error = session.open(false, Err(TransportError::Send("broken pipe".into()))).unwrap_err();
    assert!(matches!(
        &error,
        SessionError::Transport(TransportError::Send(cause)) if cause == "broken pipe"
    ));
    assert_eq!(error.message("send: broken pipe"), "transport: send: broken pipe");
}

#[test]
fn transport_errors_convert() {
    let error = SessionError::from(TransportError::Connect("no route".into()));
    assert!(matches!(
        error,
        SessionError::Transport(TransportError::Connect(cause)) if cause == "no route"
    ));
}

#[test]
fn synthetic_reason_has_code_zero() {
    let reason = synth_reason("goAway");
    assert_eq!(reason.code, 0);
    assert_eq!(reason.reason, "goAway");
}

#[test]
fn handles_leave_no_trace_in_the_events() {
    let mut with = Fake::new();
    with.push_events(vec![ServerEvent::ResumptionHandle("H1".into()), ServerEvent::Interrupted]);
    with.push_events(vec![ServerEvent::TurnComplete]);
    let mut without = Fake::new();
    without.push_events(vec![ServerEvent::Interrupted]);
    without.push_events(vec![ServerEvent::TurnComplete]);
    let mut one = Harness::connect(cfg(), with, vec![]);
    let mut other = Harness::connect(cfg(), without, vec![]);
    for _ in 0..3 {
        assert_eq!(format!("{:?}", one.next_event()), format!("{:?}", other.next_event()));
    }
}

#[test]
fn tool_arguments_are_handed_on() {
    let mut fake = Fake::new();
    fake.push_data(
        br#"{"toolCall":{"functionCalls":[{"name":"end_call","id":"c1","args":{"d":"x"}}]}}"#,
    );
    let mut s = Harness::connect(cfg(), fake, vec![]);
    s.next_event();
    match s.next_event() {
        Some(Event::ToolCall { args, .. }) => assert_eq!(args["d"], "x"),
        other => panic!("expected ToolCall, got {other:?}"),
    }
}

#[test]
fn reports_are_taken_only_when_awaited() {
    let mut session = Session::start(cfg());
    assert!(!session.can_take(&Input::Poll));
    session.open(false, Ok(())).unwrap();
    assert!(session.can_take(&Input::Poll));
    assert!(!session.can_take(&Input::Received(Received::Ended)));
    session.next_event(Input::Poll);
    session.next_event(Input::Poll);
    assert!(session.can_take(&Input::Received(Received::Ended)));
    session.next_event(Input::Received(Received::Ended));
    assert!(session.can_take(&Input::Connected(true)));
    assert!(!session.can_take(&Input::SetupSent(Ok(()))));
    session.next_event(Input::Connected(true));
    assert!(session.can_take(&Input::SetupSent(Ok(()))));
    assert!(!session.can_take(&Input::Slept));
    session.next_event(Input::SetupSent(Err(TransportError::Send("broken".into()))));
    assert!(session.can_take(&Input::Slept));
    assert!(!session.can_take(&Input::Connected(false)));
}

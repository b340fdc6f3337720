use android_commander::channel::{
    apply_lifecycle_event, relay_observation, toggle_connect, AdbConnectivity,
    AdbServerRecipeEvent, Session, SessionAction, SessionInput, SessionPhase, SessionRegistry,
    SpawnOutcome, Step,
};
use android_commander::preferences::KeyMap;
use android_commander::key_command::{create_click_key_command, SendEventKey};
use android_commander::slot::CommandSlot;

fn count_events(steps: &[Step], event: AdbServerRecipeEvent) -> usize {
    steps.iter().filter(|s| s.event == Some(event)).count()
}

#[test]
fn scenario_click_is_relayed_in_one_write() {
    // Scenario A: a click on the dpad-up key reaches the subprocess as the
    // two lines `down KEYCODE_DPAD_UP` and `up KEYCODE_DPAD_UP`, in that
    // order, within one write and flush.
    let key_map = KeyMap::default();
    assert_eq!(key_map.dpad_up, "KEYCODE_DPAD_UP");
    let click = create_click_key_command(&key_map, &SendEventKey::DpadUp);
    assert_eq!(click, "down KEYCODE_DPAD_UP\nup KEYCODE_DPAD_UP");

    let mut session = Session::start(String::from("ABC123"));
    assert_eq!(session.device().as_str(), "ABC123");
    let s1 = session.step(SessionInput::PrepareDone(true));
    assert!(s1.event.is_none());
    assert!(matches!(s1.action, SessionAction::Push));
    let s2 = session.step(SessionInput::PushDone(true));
    assert!(s2.event.is_none());
    assert!(matches!(s2.action, SessionAction::Spawn));
    let s3 = session.step(SessionInput::SpawnDone(SpawnOutcome::Spawned));
    assert_eq!(s3.event, Some(AdbServerRecipeEvent::Connected));
    assert!(matches!(s3.action, SessionAction::Await));

    let mut slot = CommandSlot::new();
    slot.send(click);
    let observed = slot.observe().expect("a value is pending");
    let s4 = session.step(SessionInput::SlotChanged(observed));
    assert!(s4.event.is_none());
    match s4.action {
        SessionAction::Write(line) => {
            assert_eq!(line, "down KEYCODE_DPAD_UP\nup KEYCODE_DPAD_UP\n");
        }
        other => panic!("expected a write, got {:?}", other),
    }
}

#[test]
fn scenario_connected_emitted_once_before_relay() {
    // Scenario B: deployment succeeds and the remote shell spawns; exactly
    // one Connected event appears, and it appears before any command is
    // relayed.
    let mut session = Session::start(String::from("ABC123"));
    let mut steps = Vec::new();
    steps.push(session.step(SessionInput::PrepareDone(true)));
    steps.push(session.step(SessionInput::PushDone(true)));
    assert_eq!(count_events(&steps, AdbServerRecipeEvent::Connected), 0);
    steps.push(session.step(SessionInput::SpawnDone(SpawnOutcome::Spawned)));
    assert_eq!(count_events(&steps, AdbServerRecipeEvent::Connected), 1);
    steps.push(session.step(SessionInput::SlotChanged(String::from("down KEYCODE_HOME"))));
    steps.push(session.step(SessionInput::WriteDone(true)));
    assert_eq!(count_events(&steps, AdbServerRecipeEvent::Connected), 1);
    assert_eq!(count_events(&steps, AdbServerRecipeEvent::Disconnected), 0);
    assert_eq!(count_events(&steps, AdbServerRecipeEvent::Error), 0);
}

#[test]
fn scenario_slot_closed_with_pending_commands() {
    // Scenario C: the UI closes the slot while three commands are pending
    // unread; at most the last one is ever delivered, and the session still
    // ends with a clean Disconnected.
    let mut slot = CommandSlot::new();
    slot.send(String::from("down A"));
    slot.send(String::from("down B"));
    slot.send(String::from("down C"));
    slot.close();

    let mut session = Session::start(String::from("ABC123"));
    session.step(SessionInput::PrepareDone(true));
    session.step(SessionInput::PushDone(true));
    let connected = session.step(SessionInput::SpawnDone(SpawnOutcome::Spawned));
    assert_eq!(connected.event, Some(AdbServerRecipeEvent::Connected));

    let mut delivered = Vec::new();
    let terminal;
    loop {
        let step = relay_observation(&mut slot, &mut session);
        match step.action {
            SessionAction::Write(line) => {
                delivered.push(line);
                session.step(SessionInput::WriteDone(true));
            }
            SessionAction::Reap => {
                terminal = step.event;
                break;
            }
            _ => {}
        }
    }
    assert_eq!(delivered, vec![String::from("down C\n")]);
    assert_eq!(terminal, Some(AdbServerRecipeEvent::Disconnected));
    assert_eq!(session.phase(), SessionPhase::Finished);
}

#[test]
fn slot_closed_before_deployment_gives_one_terminal_event() {
    // Closing the slot before any deployment step completes still ends the
    // session with exactly one terminal event; the slot closure is seen at
    // the first observation once the session is connected.
    let mut slot = CommandSlot::new();
    slot.close();

    let mut session = Session::start(String::from("any-device"));
    let mut steps = Vec::new();
    steps.push(session.step(SessionInput::PrepareDone(true)));
    steps.push(session.step(SessionInput::PushDone(true)));
    steps.push(session.step(SessionInput::SpawnDone(SpawnOutcome::Spawned)));
    assert!(slot.observe().is_none());
    let last = session.step(SessionInput::SlotClosed);
    assert_eq!(last.event, Some(AdbServerRecipeEvent::Disconnected));
    assert!(matches!(last.action, SessionAction::Reap));
    steps.push(last);
    let terminal_count = count_events(&steps, AdbServerRecipeEvent::Disconnected)
        + count_events(&steps, AdbServerRecipeEvent::Error);
    assert_eq!(terminal_count, 1);
    assert_eq!(session.phase(), SessionPhase::Finished);
}

#[test]
fn setup_failure_gives_one_error() {
    let mut session = Session::start(String::from("dev"));
    let step = session.step(SessionInput::PrepareDone(false));
    assert_eq!(step.event, Some(AdbServerRecipeEvent::Error));
    assert!(matches!(step.action, SessionAction::Stop));
    assert_eq!(session.phase(), SessionPhase::Finished);
}

#[test]
fn push_failure_never_spawns() {
    // If the push step fails, exactly one Error is emitted and no spawn is
    // ever requested afterwards.
    let mut session = Session::start(String::from("dev"));
    let s1 = session.step(SessionInput::PrepareDone(true));
    assert!(matches!(s1.action, SessionAction::Push));
    let s2 = session.step(SessionInput::PushDone(false));
    assert_eq!(s2.event, Some(AdbServerRecipeEvent::Error));
    assert!(matches!(s2.action, SessionAction::Stop));
    for _ in 0..3 {
        let s = session.step(SessionInput::ProcessExited);
        assert!(s.event.is_none());
        assert!(!matches!(s.action, SessionAction::Spawn));
        assert!(matches!(s.action, SessionAction::Stop));
    }
}

#[test]
fn spawn_without_pipe_reaps_and_errors() {
    let mut session = Session::start(String::from("dev"));
    session.step(SessionInput::PrepareDone(true));
    session.step(SessionInput::PushDone(true));
    let step = session.step(SessionInput::SpawnDone(SpawnOutcome::NoInputPipe));
    assert_eq!(step.event, Some(AdbServerRecipeEvent::Error));
    assert!(matches!(step.action, SessionAction::Reap));
    assert_eq!(session.phase(), SessionPhase::Finished);
}

#[test]
fn process_exit_while_connected_disconnects_once() {
    // The subprocess dying on its own is a clean disconnect: exactly one
    // Disconnected, and no write is attempted afterward.
    let mut session = Session::start(String::from("dev"));
    session.step(SessionInput::PrepareDone(true));
    session.step(SessionInput::PushDone(true));
    session.step(SessionInput::SpawnDone(SpawnOutcome::Spawned));
    let step = session.step(SessionInput::ProcessExited);
    assert_eq!(step.event, Some(AdbServerRecipeEvent::Disconnected));
    assert!(matches!(step.action, SessionAction::Reap));
    let after = session.step(SessionInput::SlotChanged(String::from("down X")));
    assert!(after.event.is_none());
    assert!(!matches!(after.action, SessionAction::Write(_)));
}

#[test]
fn write_failure_errors_and_reaps() {
    let mut session = Session::start(String::from("dev"));
    session.step(SessionInput::PrepareDone(true));
    session.step(SessionInput::PushDone(true));
    session.step(SessionInput::SpawnDone(SpawnOutcome::Spawned));
    session.step(SessionInput::SlotChanged(String::from("down X")));
    let step = session.step(SessionInput::WriteDone(false));
    assert_eq!(step.event, Some(AdbServerRecipeEvent::Error));
    assert!(matches!(step.action, SessionAction::Reap));
    assert_eq!(session.phase(), SessionPhase::Finished);
}

#[test]
fn terminal_events_are_terminal() {
    // Once Disconnected or Error is emitted, no further event ever follows
    // on the same session.
    let mut session = Session::start(String::from("dev"));
    session.step(SessionInput::PrepareDone(true));
    session.step(SessionInput::PushDone(true));
    session.step(SessionInput::SpawnDone(SpawnOutcome::Spawned));
    let step = session.step(SessionInput::SlotClosed);
    assert_eq!(step.event, Some(AdbServerRecipeEvent::Disconnected));
    let followups = [
        SessionInput::PrepareDone(false),
        SessionInput::PushDone(true),
        SessionInput::SpawnDone(SpawnOutcome::SpawnFailed),
        SessionInput::SlotChanged(String::from("down X")),
        SessionInput::SlotClosed,
        SessionInput::ProcessExited,
        SessionInput::WriteDone(false),
    ];
    for input in followups {
        let s = session.step(input);
        assert!(s.event.is_none());
        assert!(matches!(s.action, SessionAction::Stop));
    }
}

#[test]
fn sentinel_is_never_forwarded() {
    let mut session = Session::start(String::from("dev"));
    session.step(SessionInput::PrepareDone(true));
    session.step(SessionInput::PushDone(true));
    session.step(SessionInput::SpawnDone(SpawnOutcome::Spawned));
    let step = session.step(SessionInput::SlotChanged(String::new()));
    assert!(step.event.is_none());
    assert!(matches!(step.action, SessionAction::Await));
    let step = session.step(SessionInput::SlotChanged(String::from("down Y")));
    match step.action {
        SessionAction::Write(line) => assert_eq!(line, "down Y\n"),
        other => panic!("expected a write, got {:?}", other),
    }
}

#[test]
fn relayed_commands_are_a_subsequence_in_order() {
    // Writers outpace the reader: what is relayed is a subsequence of what
    // was written, in the original relative order, sentinel excluded.
    let written = ["down A", "up A", "down B", "up B", "down C", "up C"];
    let mut slot = CommandSlot::new();
    let mut session = Session::start(String::from("dev"));
    session.step(SessionInput::PrepareDone(true));
    session.step(SessionInput::PushDone(true));
    session.step(SessionInput::SpawnDone(SpawnOutcome::Spawned));

    let mut relayed = Vec::new();
    for pair in written.chunks(2) {
        for w in pair {
            slot.send(String::from(*w));
        }
        // the reader wakes up only now: it sees the latest value of the pair
        if let Some(value) = slot.observe() {
            let step = session.step(SessionInput::SlotChanged(value));
            if let SessionAction::Write(line) = step.action {
                relayed.push(line);
                session.step(SessionInput::WriteDone(true));
            }
        }
    }
    assert_eq!(
        relayed,
        vec![
            String::from("up A\n"),
            String::from("up B\n"),
            String::from("up C\n")
        ]
    );
    // a subsequence of the writes, in order, and no sentinel among them
    let mut search_from = 0;
    for line in &relayed {
        let command = &line[..line.len() - 1];
        assert!(!command.is_empty());
        let pos = written[search_from..]
            .iter()
            .position(|w| *w == command)
            .expect("relayed command must appear among later writes");
        search_from += pos + 1;
    }
}

#[test]
fn slot_coalesces_and_reports_closure() {
    let mut slot = CommandSlot::new();
    assert!(!slot.ready());
    slot.send(String::from("one"));
    slot.send(String::from("two"));
    assert!(slot.ready());
    assert_eq!(slot.observe(), Some(String::from("two")));
    assert!(!slot.ready());
    slot.close();
    assert!(slot.ready());
    assert_eq!(slot.observe(), None);
}

#[test]
fn connectivity_indicator_transitions() {
    assert_eq!(
        apply_lifecycle_event(AdbConnectivity::Connecting, AdbServerRecipeEvent::Connected),
        (AdbConnectivity::Connected, false)
    );
    assert_eq!(
        apply_lifecycle_event(AdbConnectivity::Connected, AdbServerRecipeEvent::Disconnected),
        (AdbConnectivity::Disconnected, true)
    );
    assert_eq!(
        apply_lifecycle_event(AdbConnectivity::Connecting, AdbServerRecipeEvent::Error),
        (AdbConnectivity::Disconnected, false)
    );
    assert_eq!(
        apply_lifecycle_event(AdbConnectivity::Connected, AdbServerRecipeEvent::Error),
        (AdbConnectivity::Disconnected, false)
    );

    assert_eq!(toggle_connect(AdbConnectivity::Disconnected), (AdbConnectivity::Connecting, false));
    assert_eq!(toggle_connect(AdbConnectivity::Connecting), (AdbConnectivity::Connecting, false));
    assert_eq!(toggle_connect(AdbConnectivity::Connected), (AdbConnectivity::Disconnected, true));
}

#[test]
fn registry_refuses_duplicate_sessions() {
    let mut registry = SessionRegistry::new();
    let first = String::from("ABC123");
    let second = String::from("emulator-5554");
    assert!(!registry.is_active(&first));
    assert!(registry.begin(&first));
    assert!(registry.is_active(&first));
    // a second session for the same device is refused
    assert!(!registry.begin(&first));
    assert!(registry.begin(&second));
    registry.end(&first);
    assert!(!registry.is_active(&first));
    assert!(registry.is_active(&second));
    // the identifier is free again after the session ended
    assert!(registry.begin(&first));
}

use led_controller::backend::{Backend, Channel};
use led_controller::control::{start, step, Action, Event, LoopState, POLL_INTERVAL_MS};

#[test]
fn loop_starts_by_sampling() {
    assert_eq!(start(), (LoopState::Running, Action::Sample));
}

#[test]
fn sample_leads_to_commit_of_its_duty_cycles() {
    assert_eq!(
        step(LoopState::Running, Event::Sampled(9)),
        (LoopState::Running, Action::Commit(90, 83, 68))
    );
}

#[test]
fn commit_leads_to_pause_then_sample() {
    assert_eq!(
        step(LoopState::Running, Event::Committed),
        (LoopState::Running, Action::Sleep(POLL_INTERVAL_MS))
    );
    assert_eq!(POLL_INTERVAL_MS, 500);
    assert_eq!(step(LoopState::Running, Event::Woke), (LoopState::Running, Action::Sample));
}

#[test]
fn failed_read_or_write_is_fatal() {
    assert_eq!(step(LoopState::Running, Event::SampleFailed), (LoopState::Fatal, Action::Halt));
    assert_eq!(step(LoopState::Running, Event::CommitFailed), (LoopState::Fatal, Action::Halt));
}

#[test]
fn fatal_state_stays_fatal() {
    for event in [Event::Sampled(5), Event::Committed, Event::Woke, Event::SampleFailed] {
        assert_eq!(step(LoopState::Fatal, event), (LoopState::Fatal, Action::Halt));
    }
}

#[test]
fn slowest_speed_gives_the_same_output_on_every_tick() {
    let backend = Backend::Unified;
    let mut written: Vec<Vec<u8>> = Vec::new();
    let (mut state, mut action) = start();
    for _ in 0..2 {
        assert_eq!(action, Action::Sample);
        let speed = backend.read_speed("speed: 1 presses/second");
        (state, action) = step(state, Event::Sampled(speed));
        assert_eq!(action, Action::Commit(10, 0, 0));
        if let Action::Commit(a, b, c) = action {
            let writes = backend.commit_writes(a, b, c);
            assert_eq!(writes.len(), 1);
            assert_eq!(writes[0].channel, Channel::Device);
            written.push(writes[0].bytes.clone());
        }
        (state, action) = step(state, Event::Committed);
        assert_eq!(action, Action::Sleep(500));
        (state, action) = step(state, Event::Woke);
    }
    assert_eq!(state, LoopState::Running);
    assert_eq!(written, vec![b"10 0 0".to_vec(), b"10 0 0".to_vec()]);
}

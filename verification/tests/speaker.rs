use sound_tts::{Action, Phase, Signal, SoundValue, Speaker, POLL_INTERVAL_MS};

fn idle(name: &str) -> Speaker {
    Speaker::new(String::from(name))
}

fn play(text: &str) -> Action {
    Action::Play(String::from(text))
}

/// A loop with a clock of its own: every audio lasts `audio_ms`, and every
/// poll and pause takes one tick.
struct Loop {
    clock_ms: u64,
    audio_ms: u64,
    audio_ends_ms: u64,
    ended_ms: u64,
    signal: Signal,
    plays: u64,
    releases: u64,
    exited: bool,
}

fn new_loop(audio_ms: u64) -> Loop {
    Loop {
        clock_ms: 0,
        audio_ms,
        audio_ends_ms: 0,
        ended_ms: 0,
        signal: Signal::Nothing,
        plays: 0,
        releases: 0,
        exited: false,
    }
}

fn one_step(lp: &mut Loop, speaker: &mut Speaker) -> Action {
    let action = speaker.step(lp.signal);
    match &action {
        Action::Play(_) | Action::Replay => {
            lp.plays += 1;
            lp.audio_ends_ms = lp.clock_ms + lp.audio_ms;
            lp.signal = Signal::Nothing;
        }
        Action::Poll => {
            lp.clock_ms += POLL_INTERVAL_MS;
            if lp.clock_ms >= lp.audio_ends_ms {
                lp.ended_ms = lp.clock_ms;
                lp.signal = Signal::Ended;
            } else {
                lp.signal = Signal::Nothing;
            }
        }
        Action::Pause => {
            lp.clock_ms += POLL_INTERVAL_MS;
            lp.signal = Signal::Waited((lp.clock_ms - lp.ended_ms) / 1000);
        }
        Action::Release => {
            lp.releases += 1;
            lp.signal = Signal::Nothing;
        }
        Action::Exit => {
            lp.exited = true;
        }
    }
    action
}

fn run_until(lp: &mut Loop, speaker: &mut Speaker, until_ms: u64) {
    while !lp.exited && lp.clock_ms < until_ms {
        one_step(lp, speaker);
    }
}

#[test]
fn poll_tick_is_ten_milliseconds() {
    assert_eq!(POLL_INTERVAL_MS, 10);
}

#[test]
fn new_speaker_is_idle() {
    let speaker = idle("Speakers");
    assert_eq!(speaker.name(), "Speakers");
    assert_eq!(speaker.phase(), Phase::Idle);
    assert!(!speaker.is_playing());
    assert_eq!(speaker.pending(), 0);
    assert!(!speaker.is_cancelled());
    assert_eq!(speaker.completed_repeats(), 0);
    assert!(speaker.is_named(&String::from("Speakers")));
    assert!(!speaker.is_named(&String::from("speakers")));
}

#[test]
fn loop_on_idle_speaker_leaves_at_once() {
    let mut speaker = idle("X");
    assert_eq!(speaker.step(Signal::Nothing), Action::Exit);
    assert_eq!(speaker.step(Signal::Ended), Action::Exit);
    assert_eq!(speaker.step(Signal::Waited(5)), Action::Exit);
    assert_eq!(speaker.step(Signal::Failed), Action::Exit);
    assert_eq!(speaker.phase(), Phase::Idle);
    assert_eq!(speaker.pending(), 0);
}

#[test]
fn single_request_plays_once_and_speaker_goes_idle() {
    let mut speaker = idle("D");
    assert!(speaker.speak(SoundValue::new("hello", 1, 0, "D"), false));
    assert!(speaker.is_playing());
    assert_eq!(speaker.phase(), Phase::Ready);
    assert_eq!(speaker.pending(), 1);

    assert_eq!(speaker.step(Signal::Nothing), play("hello"));
    assert_eq!(speaker.phase(), Phase::Sounding);
    assert_eq!(speaker.pending(), 0);
    assert_eq!(speaker.completed_repeats(), 1);

    assert_eq!(speaker.step(Signal::Nothing), Action::Poll);
    assert_eq!(speaker.step(Signal::Nothing), Action::Poll);
    assert_eq!(speaker.step(Signal::Waited(3)), Action::Poll);
    assert_eq!(speaker.phase(), Phase::Sounding);

    assert_eq!(speaker.step(Signal::Ended), Action::Release);
    assert_eq!(speaker.phase(), Phase::Ready);
    assert!(speaker.is_playing());
    assert_eq!(speaker.completed_repeats(), 0);

    assert_eq!(speaker.step(Signal::Nothing), Action::Exit);
    assert_eq!(speaker.phase(), Phase::Idle);
    assert!(!speaker.is_playing());
    assert_eq!(speaker.pending(), 0);
}

#[test]
fn only_the_first_request_starts_the_loop() {
    let mut speaker = idle("D");
    assert!(speaker.speak(SoundValue::create("one", "D"), false));
    assert!(!speaker.speak(SoundValue::create("two", "D"), false));
    assert!(!speaker.speak(SoundValue::create("three", "D"), true));
    assert_eq!(speaker.step(Signal::Nothing), play("three"));
    assert!(!speaker.speak(SoundValue::create("four", "D"), false));
    assert_eq!(speaker.step(Signal::Ended), Action::Release);
    assert!(!speaker.speak(SoundValue::create("five", "D"), false));
    assert_eq!(speaker.step(Signal::Nothing), play("four"));
    assert_eq!(speaker.step(Signal::Ended), Action::Release);
    assert_eq!(speaker.step(Signal::Nothing), play("five"));
    assert_eq!(speaker.step(Signal::Ended), Action::Release);
    assert_eq!(speaker.step(Signal::Nothing), Action::Exit);
    assert!(speaker.speak(SoundValue::create("six", "D"), false));
}

#[test]
fn requests_play_in_the_order_of_arrival() {
    let mut speaker = idle("D");
    assert!(speaker.speak(SoundValue::new("first", 2, 0, "D"), false));
    assert!(!speaker.speak(SoundValue::new("second", 1, 0, "D"), false));
    assert_eq!(speaker.pending(), 2);

    assert_eq!(speaker.step(Signal::Nothing), play("first"));
    assert_eq!(speaker.pending(), 1);
    assert_eq!(speaker.step(Signal::Nothing), Action::Poll);
    assert_eq!(speaker.step(Signal::Ended), Action::Replay);
    assert_eq!(speaker.completed_repeats(), 2);
    assert_eq!(speaker.pending(), 1);
    assert_eq!(speaker.step(Signal::Nothing), Action::Poll);
    assert_eq!(speaker.step(Signal::Ended), Action::Release);
    assert_eq!(speaker.pending(), 1);

    assert_eq!(speaker.step(Signal::Nothing), play("second"));
    assert_eq!(speaker.pending(), 0);
    assert_eq!(speaker.step(Signal::Ended), Action::Release);
    assert_eq!(speaker.step(Signal::Nothing), Action::Exit);
    assert_eq!(speaker.phase(), Phase::Idle);
}

#[test]
fn request_without_text_is_skipped() {
    let mut speaker = idle("D");
    assert!(speaker.speak(SoundValue::create("", "D"), false));
    assert_eq!(speaker.phase(), Phase::Ready);
    assert_eq!(speaker.step(Signal::Nothing), Action::Exit);
    assert_eq!(speaker.phase(), Phase::Idle);
    assert_eq!(speaker.pending(), 0);

    assert!(speaker.speak(SoundValue::create("", "D"), false));
    assert!(!speaker.speak(SoundValue::new("", 0, 3, "D"), false));
    assert!(!speaker.speak(SoundValue::create("said", "D"), false));
    assert!(!speaker.speak(SoundValue::create("", "D"), false));
    assert_eq!(speaker.pending(), 4);
    assert_eq!(speaker.step(Signal::Nothing), play("said"));
    assert_eq!(speaker.pending(), 1);
    assert_eq!(speaker.step(Signal::Ended), Action::Release);
    assert_eq!(speaker.step(Signal::Nothing), Action::Exit);
    assert_eq!(speaker.pending(), 0);
    assert_eq!(speaker.phase(), Phase::Idle);
}

#[test]
fn counted_request_plays_exactly_count_times() {
    for count in [1u64, 2, 3, 7] {
        let mut speaker = idle("D");
        speaker.speak(SoundValue::new("n", count, 0, "D"), false);
        let mut lp = new_loop(30);
        run_until(&mut lp, &mut speaker, 1_000_000);
        assert!(lp.exited);
        assert_eq!(lp.plays, count);
        assert_eq!(lp.releases, 1);
        assert_eq!(speaker.phase(), Phase::Idle);
    }
}

#[test]
fn counter_follows_the_plays() {
    let mut speaker = idle("D");
    speaker.speak(SoundValue::new("n", 3, 0, "D"), false);
    assert_eq!(speaker.completed_repeats(), 0);
    assert_eq!(speaker.step(Signal::Nothing), play("n"));
    assert_eq!(speaker.completed_repeats(), 1);
    assert_eq!(speaker.step(Signal::Ended), Action::Replay);
    assert_eq!(speaker.completed_repeats(), 2);
    assert_eq!(speaker.step(Signal::Ended), Action::Replay);
    assert_eq!(speaker.completed_repeats(), 3);
    assert_eq!(speaker.step(Signal::Ended), Action::Release);
    assert_eq!(speaker.completed_repeats(), 0);
}

#[test]
fn largest_count_does_not_overflow() {
    let mut speaker = idle("D");
    speaker.speak(SoundValue::new("n", u64::MAX, 0, "D"), false);
    assert_eq!(speaker.step(Signal::Nothing), play("n"));
    for played in 1..1000u64 {
        assert_eq!(speaker.completed_repeats(), played);
        assert_eq!(speaker.step(Signal::Ended), Action::Replay);
    }
    assert_eq!(speaker.completed_repeats(), 1000);
}

#[test]
fn replay_waits_for_the_interval() {
    let mut speaker = idle("D");
    speaker.speak(SoundValue::new("n", 2, 2, "D"), false);
    assert_eq!(speaker.step(Signal::Nothing), play("n"));
    assert_eq!(speaker.step(Signal::Ended), Action::Pause);
    assert_eq!(speaker.phase(), Phase::Pausing);
    assert_eq!(speaker.completed_repeats(), 2);
    assert_eq!(speaker.step(Signal::Waited(0)), Action::Pause);
    assert_eq!(speaker.step(Signal::Nothing), Action::Pause);
    assert_eq!(speaker.step(Signal::Ended), Action::Pause);
    assert_eq!(speaker.step(Signal::Waited(1)), Action::Pause);
    assert_eq!(speaker.phase(), Phase::Pausing);
    assert_eq!(speaker.step(Signal::Waited(2)), Action::Replay);
    assert_eq!(speaker.phase(), Phase::Sounding);
    assert_eq!(speaker.step(Signal::Nothing), Action::Poll);
    assert_eq!(speaker.step(Signal::Ended), Action::Release);
    assert_eq!(speaker.step(Signal::Nothing), Action::Exit);
}

#[test]
fn replay_after_a_longer_wait() {
    let mut speaker = idle("D");
    speaker.speak(SoundValue::new("n", 0, 5, "D"), false);
    assert_eq!(speaker.step(Signal::Nothing), play("n"));
    assert_eq!(speaker.step(Signal::Ended), Action::Pause);
    assert_eq!(speaker.step(Signal::Waited(4)), Action::Pause);
    assert_eq!(speaker.step(Signal::Waited(9)), Action::Replay);
}

#[test]
fn intervals_lie_between_the_plays() {
    let mut speaker = idle("D");
    speaker.speak(SoundValue::new("n", 3, 1, "D"), false);
    let mut lp = new_loop(100);
    let mut starts: Vec<u64> = Vec::new();
    let mut ends: Vec<u64> = Vec::new();
    while !lp.exited {
        let before = lp.signal;
        let action = one_step(&mut lp, &mut speaker);
        if before == Signal::Ended {
            ends.push(lp.ended_ms);
        }
        if action == play("n") || action == Action::Replay {
            starts.push(lp.clock_ms);
        }
    }
    assert_eq!(starts.len(), 3);
    assert_eq!(ends.len(), 3);
    for i in 1..3 {
        assert!(starts[i] >= ends[i - 1] + 1000);
        assert!(starts[i] <= ends[i - 1] + 1000 + POLL_INTERVAL_MS);
    }
}

#[test]
fn endless_request_plays_until_stopped() {
    let mut speaker = idle("X");
    speaker.speak(SoundValue::new("a", 0, 0, "X"), false);
    assert_eq!(speaker.step(Signal::Nothing), play("a"));
    for _ in 0..500 {
        assert_eq!(speaker.step(Signal::Nothing), Action::Poll);
        assert_eq!(speaker.step(Signal::Ended), Action::Replay);
        assert_eq!(speaker.completed_repeats(), 0);
    }
    speaker.stop();
    assert_eq!(speaker.step(Signal::Nothing), Action::Release);
    assert_eq!(speaker.step(Signal::Nothing), Action::Exit);
    assert_eq!(speaker.phase(), Phase::Idle);
}

#[test]
fn endless_request_with_interval_stopped_after_three_and_a_half_seconds() {
    let mut speaker = idle("X");
    assert!(speaker.speak(SoundValue::new("a", 0, 1, "X"), false));
    let mut lp = new_loop(50);
    run_until(&mut lp, &mut speaker, 3500);
    assert!(!lp.exited);
    assert!(lp.plays >= 3);
    assert_eq!(lp.plays, 4);
    assert_eq!(lp.releases, 0);
    assert!(speaker.is_playing());

    speaker.stop();
    assert!(speaker.is_cancelled());
    let stopped_ms = lp.clock_ms;
    let plays = lp.plays;
    assert_eq!(one_step(&mut lp, &mut speaker), Action::Release);
    assert_eq!(one_step(&mut lp, &mut speaker), Action::Exit);
    assert_eq!(speaker.phase(), Phase::Idle);
    assert_eq!(speaker.pending(), 0);
    assert!(!speaker.is_cancelled());
    assert_eq!(lp.plays, plays);
    assert!(lp.clock_ms <= stopped_ms + POLL_INTERVAL_MS);
}

#[test]
fn stop_while_sounding_ends_playback() {
    let mut speaker = idle("D");
    speaker.speak(SoundValue::new("long", 5, 0, "D"), false);
    speaker.speak(SoundValue::create("later", "D"), false);
    speaker.speak(SoundValue::create("last", "D"), false);
    assert_eq!(speaker.step(Signal::Nothing), play("long"));
    assert_eq!(speaker.step(Signal::Ended), Action::Replay);
    assert_eq!(speaker.pending(), 2);

    speaker.stop();
    assert_eq!(speaker.pending(), 0);
    assert!(speaker.is_cancelled());
    assert_eq!(speaker.phase(), Phase::Sounding);
    assert!(speaker.is_playing());

    assert_eq!(speaker.step(Signal::Nothing), Action::Release);
    assert!(!speaker.is_cancelled());
    assert_eq!(speaker.completed_repeats(), 0);
    assert_eq!(speaker.step(Signal::Nothing), Action::Exit);
    assert_eq!(speaker.phase(), Phase::Idle);
    assert_eq!(speaker.pending(), 0);
}

#[test]
fn stop_wins_over_the_end_of_the_audio() {
    let mut speaker = idle("D");
    speaker.speak(SoundValue::new("n", 0, 0, "D"), false);
    assert_eq!(speaker.step(Signal::Nothing), play("n"));
    speaker.stop();
    assert_eq!(speaker.step(Signal::Ended), Action::Release);
    assert_eq!(speaker.step(Signal::Ended), Action::Exit);
}

#[test]
fn stop_while_pausing_ends_playback() {
    let mut speaker = idle("D");
    speaker.speak(SoundValue::new("n", 0, 60, "D"), false);
    assert_eq!(speaker.step(Signal::Nothing), play("n"));
    assert_eq!(speaker.step(Signal::Ended), Action::Pause);
    assert_eq!(speaker.step(Signal::Waited(0)), Action::Pause);
    speaker.stop();
    assert_eq!(speaker.phase(), Phase::Pausing);
    assert_eq!(speaker.step(Signal::Waited(60)), Action::Release);
    assert_eq!(speaker.step(Signal::Nothing), Action::Exit);
    assert_eq!(speaker.phase(), Phase::Idle);
}

#[test]
fn stop_between_two_requests_ends_the_loop() {
    let mut speaker = idle("D");
    speaker.speak(SoundValue::create("one", "D"), false);
    speaker.speak(SoundValue::create("two", "D"), false);
    assert_eq!(speaker.step(Signal::Nothing), play("one"));
    assert_eq!(speaker.step(Signal::Ended), Action::Release);
    assert_eq!(speaker.phase(), Phase::Ready);
    speaker.stop();
    assert_eq!(speaker.pending(), 0);
    assert_eq!(speaker.step(Signal::Nothing), Action::Exit);
    assert_eq!(speaker.phase(), Phase::Idle);
    assert!(!speaker.is_cancelled());
}

#[test]
fn stop_while_idle_changes_nothing() {
    let mut speaker = idle("D");
    speaker.stop();
    assert_eq!(speaker.phase(), Phase::Idle);
    assert!(!speaker.is_cancelled());
    assert_eq!(speaker.pending(), 0);
    assert_eq!(speaker.completed_repeats(), 0);
    assert_eq!(speaker.name(), "D");
    speaker.stop();
    assert!(speaker.speak(SoundValue::create("one", "D"), false));
    assert_eq!(speaker.step(Signal::Nothing), play("one"));
}

#[test]
fn interrupt_drops_the_queue_and_plays_next() {
    let mut speaker = idle("D");
    speaker.speak(SoundValue::new("old", 0, 0, "D"), false);
    speaker.speak(SoundValue::create("waiting", "D"), false);
    assert_eq!(speaker.step(Signal::Nothing), play("old"));
    assert_eq!(speaker.step(Signal::Nothing), Action::Poll);

    assert!(!speaker.speak(SoundValue::new("urgent", 2, 0, "D"), true));
    assert_eq!(speaker.pending(), 1);
    assert!(speaker.is_cancelled());

    assert_eq!(speaker.step(Signal::Nothing), Action::Release);
    assert_eq!(speaker.step(Signal::Nothing), play("urgent"));
    assert!(!speaker.is_cancelled());
    assert_eq!(speaker.pending(), 0);
    assert_eq!(speaker.step(Signal::Ended), Action::Replay);
    assert_eq!(speaker.step(Signal::Ended), Action::Release);
    assert_eq!(speaker.step(Signal::Nothing), Action::Exit);
}

#[test]
fn interrupt_on_idle_speaker_is_a_plain_request() {
    let mut speaker = idle("D");
    assert!(speaker.speak(SoundValue::create("now", "D"), true));
    assert!(!speaker.is_cancelled());
    assert_eq!(speaker.pending(), 1);
    assert_eq!(speaker.step(Signal::Nothing), play("now"));
}

#[test]
fn request_between_stop_and_interrupt_goes_ahead() {
    let mut speaker = idle("D");
    speaker.speak(SoundValue::new("old", 0, 0, "D"), false);
    assert_eq!(speaker.step(Signal::Nothing), play("old"));
    speaker.stop();
    assert!(!speaker.speak(SoundValue::create("racing", "D"), false));
    assert!(!speaker.speak(SoundValue::create("urgent", "D"), false));
    assert_eq!(speaker.step(Signal::Nothing), Action::Release);
    assert_eq!(speaker.step(Signal::Nothing), play("racing"));
    assert_eq!(speaker.step(Signal::Ended), Action::Release);
    assert_eq!(speaker.step(Signal::Nothing), play("urgent"));
}

#[test]
fn engine_failure_ends_the_request_and_the_next_is_played() {
    let mut speaker = idle("D");
    speaker.speak(SoundValue::new("broken", 4, 1, "D"), false);
    speaker.speak(SoundValue::create("fine", "D"), false);
    assert_eq!(speaker.step(Signal::Nothing), play("broken"));
    assert_eq!(speaker.step(Signal::Failed), Action::Release);
    assert_eq!(speaker.phase(), Phase::Ready);
    assert_eq!(speaker.completed_repeats(), 0);
    assert_eq!(speaker.step(Signal::Nothing), play("fine"));
    assert_eq!(speaker.step(Signal::Ended), Action::Release);
    assert_eq!(speaker.step(Signal::Nothing), Action::Exit);
}

#[test]
fn engine_failure_while_pausing_ends_the_request() {
    let mut speaker = idle("D");
    speaker.speak(SoundValue::new("n", 2, 3, "D"), false);
    assert_eq!(speaker.step(Signal::Nothing), play("n"));
    assert_eq!(speaker.step(Signal::Ended), Action::Pause);
    assert_eq!(speaker.step(Signal::Failed), Action::Release);
    assert_eq!(speaker.step(Signal::Nothing), Action::Exit);
    assert_eq!(speaker.phase(), Phase::Idle);
}

#[test]
fn signal_is_ignored_between_two_requests() {
    for signal in [Signal::Nothing, Signal::Ended, Signal::Waited(9), Signal::Failed] {
        let mut speaker = idle("D");
        speaker.speak(SoundValue::create("one", "D"), false);
        assert_eq!(speaker.step(signal), play("one"));
        assert_eq!(speaker.phase(), Phase::Sounding);
    }
}

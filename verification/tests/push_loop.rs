use live_chart::push_loop::LoopAction;
use live_chart::push_loop::PushLoop;
use live_chart::push_loop::TICK_MILLIS;

#[test]
fn the_tick_is_ten_milliseconds() {
    assert_eq!(TICK_MILLIS, 10);
}

#[test]
fn a_new_loop_ticks() {
    let task = PushLoop::new();
    assert_eq!(task.next_action(), LoopAction::Tick { millis: 10 });
}

#[test]
fn a_loop_keeps_ticking_while_deliveries_succeed() {
    let mut task = PushLoop::new();
    for _ in 0..1000 {
        assert_eq!(task.next_action(), LoopAction::Tick { millis: 10 });
        task.on_delivery(true);
    }
    assert_eq!(task.next_action(), LoopAction::Tick { millis: 10 });
}

#[test]
fn a_failed_delivery_ends_the_loop() {
    let mut task = PushLoop::new();
    task.on_delivery(true);
    task.on_delivery(false);
    assert_eq!(task.next_action(), LoopAction::Exit);
}

#[test]
fn a_first_delivery_that_fails_ends_the_loop() {
    let mut task = PushLoop::new();
    task.on_delivery(false);
    assert_eq!(task.next_action(), LoopAction::Exit);
}

#[test]
fn a_stopped_loop_is_not_started_again() {
    let mut task = PushLoop::new();
    task.on_delivery(false);
    for delivered in [true, false, true, true] {
        task.on_delivery(delivered);
        assert_eq!(task.next_action(), LoopAction::Exit);
    }
}

#[test]
fn asking_for_the_action_changes_nothing() {
    let mut task = PushLoop::new();
    assert_eq!(task.next_action(), task.next_action());
    task.on_delivery(false);
    assert_eq!(task.next_action(), task.next_action());
}

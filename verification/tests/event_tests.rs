use autd3_simulator::event::{Control, EventResult, LoopDirective, RepaintSchedule};

#[test]
fn new_schedule_plans_nothing() {
    let mut schedule = RepaintSchedule::new();
    assert_eq!(schedule.next(), None);
    assert_eq!(schedule.check_redraw_requests(100), (false, None));
    assert_eq!(schedule.next(), None);
}

#[test]
fn wait_sets_the_loop_to_wait() {
    let mut schedule = RepaintSchedule::new();
    assert_eq!(
        schedule.handle_event_result(Some(EventResult::Wait), 10),
        LoopDirective { control: Some(Control::Wait), redraw: false, exit: false }
    );
    assert_eq!(schedule.next(), None);
}

#[test]
fn repaint_now_and_next_paint_at_once() {
    for result in [EventResult::RepaintNow, EventResult::RepaintNext] {
        let mut schedule = RepaintSchedule::new();
        assert_eq!(
            schedule.handle_event_result(Some(result), 10),
            LoopDirective { control: None, redraw: true, exit: false }
        );
        assert_eq!(schedule.next(), None);
    }
}

#[test]
fn repaint_at_a_later_time_waits_until_then() {
    let mut schedule = RepaintSchedule::new();
    assert_eq!(
        schedule.handle_event_result(Some(EventResult::RepaintAt(50)), 10),
        LoopDirective { control: Some(Control::WaitUntil(50)), redraw: false, exit: false }
    );
    assert_eq!(schedule.next(), Some(50));
    assert_eq!(schedule.check_redraw_requests(49), (false, Some(Control::WaitUntil(50))));
    assert_eq!(schedule.next(), Some(50));
    assert_eq!(schedule.check_redraw_requests(50), (true, None));
    assert_eq!(schedule.next(), None);
    assert_eq!(schedule.check_redraw_requests(51), (false, None));
}

#[test]
fn repaint_at_keeps_the_earlier_time() {
    let mut schedule = RepaintSchedule::new();
    schedule.handle_event_result(Some(EventResult::RepaintAt(50)), 10);
    assert_eq!(
        schedule.handle_event_result(Some(EventResult::RepaintAt(80)), 11),
        LoopDirective { control: Some(Control::WaitUntil(50)), redraw: false, exit: false }
    );
    assert_eq!(schedule.next(), Some(50));
    assert_eq!(
        schedule.handle_event_result(Some(EventResult::RepaintAt(30)), 12),
        LoopDirective { control: Some(Control::WaitUntil(30)), redraw: false, exit: false }
    );
    assert_eq!(schedule.next(), Some(30));
}

#[test]
fn repaint_at_a_time_that_has_passed_paints_at_once() {
    let mut schedule = RepaintSchedule::new();
    assert_eq!(
        schedule.handle_event_result(Some(EventResult::RepaintAt(5)), 10),
        LoopDirective { control: None, redraw: true, exit: false }
    );
    assert_eq!(schedule.next(), None);
}

#[test]
fn wait_does_not_cancel_a_planned_painting() {
    let mut schedule = RepaintSchedule::new();
    schedule.handle_event_result(Some(EventResult::RepaintAt(50)), 10);
    assert_eq!(
        schedule.handle_event_result(Some(EventResult::Wait), 20),
        LoopDirective { control: Some(Control::WaitUntil(50)), redraw: false, exit: false }
    );
    assert_eq!(
        schedule.handle_event_result(Some(EventResult::Wait), 60),
        LoopDirective { control: Some(Control::Wait), redraw: true, exit: false }
    );
    assert_eq!(schedule.next(), None);
}

#[test]
fn exit_and_failure_leave_the_loop() {
    let mut schedule = RepaintSchedule::new();
    assert_eq!(
        schedule.handle_event_result(Some(EventResult::Exit), 10),
        LoopDirective { control: None, redraw: false, exit: true }
    );
    assert_eq!(
        schedule.handle_event_result(None, 10),
        LoopDirective { control: None, redraw: false, exit: true }
    );
    schedule.handle_event_result(Some(EventResult::RepaintAt(50)), 10);
    assert_eq!(
        schedule.handle_event_result(None, 20),
        LoopDirective { control: Some(Control::WaitUntil(50)), redraw: false, exit: true }
    );
}

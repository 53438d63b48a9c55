use metaloop::fixed::UNIT;
use metaloop::loop_scheduler::{
    next_grid_in_beats, previous_grid_in_beats, LoopEvent, LoopScheduler, MAX_BEATS,
};
use metaloop::scheduler::Scheduler;

#[derive(Debug, Clone, Copy, PartialEq, Eq)]
pub enum TestEvent {
    A,
    B,
}

fn fx(value: f64) -> i64 {
    (value * UNIT as f64).round() as i64
}

#[test]
fn test_scheduler() {
    let mut scheduler = Scheduler::<TestEvent>::new();
    scheduler.schedule_event(fx(1.0), TestEvent::A);
    scheduler.schedule_event(fx(2.0), TestEvent::B);
    scheduler.schedule_event(fx(3.0), TestEvent::A);
    scheduler.schedule_event(fx(4.0), TestEvent::B);
    scheduler.schedule_event(fx(5.0), TestEvent::A);
    assert_eq!(scheduler.tick(fx(0.0)), vec![]);
    assert_eq!(scheduler.tick(fx(1.0)), vec![TestEvent::A]);
    assert_eq!(scheduler.tick(fx(1.5)), vec![]);
    assert_eq!(scheduler.tick(fx(2.0)), vec![TestEvent::B]);
    assert_eq!(scheduler.tick(fx(4.0)), vec![TestEvent::A, TestEvent::B]);
    assert_eq!(scheduler.tick(fx(4.5)), vec![]);
    scheduler.clear();
    assert_eq!(scheduler.tick(fx(5.0)), vec![]);
}

#[test]
fn scheduler_keeps_insertion_order_at_equal_times() {
    let mut scheduler = Scheduler::<u8>::new();
    assert!(scheduler.can_schedule(0));
    assert!(scheduler.can_schedule(-1));
    scheduler.schedule_event(7, 1);
    scheduler.schedule_event(7, 2);
    scheduler.schedule_event(9, 3);
    assert!(scheduler.can_schedule(9));
    assert!(!scheduler.can_schedule(8));
    assert_eq!(scheduler.tick(6), vec![]);
    assert_eq!(scheduler.tick(8), vec![1, 2]);
    assert_eq!(scheduler.tick(100), vec![3]);
    assert_eq!(scheduler.tick(200), vec![]);
}

#[test]
fn scheduler_clear_twice_is_harmless() {
    let mut scheduler = Scheduler::<u8>::new();
    scheduler.schedule_event(1, 1);
    scheduler.clear();
    scheduler.clear();
    assert_eq!(scheduler.tick(5), vec![]);
    assert!(scheduler.can_schedule(0));
}

#[test]
fn test_next_grid_in_beats() {
    assert_eq!(next_grid_in_beats(fx(0.0), fx(1.0), fx(0.0)), fx(0.0));
}

#[test]
fn grid_lines_with_lead_in() {
    assert_eq!(next_grid_in_beats(fx(2.25), fx(1.0), 0), fx(3.0));
    assert_eq!(next_grid_in_beats(fx(2.25), fx(0.5), 0), fx(2.5));
    assert_eq!(next_grid_in_beats(fx(3.0), fx(1.0), 0), fx(3.0));
    assert_eq!(next_grid_in_beats(fx(2.25), fx(1.0), fx(0.25)), fx(2.75));
    assert_eq!(next_grid_in_beats(fx(2.8), fx(1.0), fx(0.25)), fx(3.75));
    assert_eq!(next_grid_in_beats(fx(-1.0), fx(5.0), 0), 0);
    assert_eq!(next_grid_in_beats(fx(-1.0), fx(0.4), 0), fx(-0.8));
    assert_eq!(previous_grid_in_beats(fx(2.25), fx(1.0), 0), fx(2.0));
    assert_eq!(previous_grid_in_beats(fx(2.0), fx(1.0), 0), fx(2.0));
    assert_eq!(previous_grid_in_beats(fx(2.25), fx(1.0), fx(0.5)), fx(1.5));
    assert_eq!(previous_grid_in_beats(fx(-0.25), fx(1.0), 0), fx(-1.0));
    assert_eq!(next_grid_in_beats(i64::MAX, 2, 0), i64::MAX);
}

#[test]
fn test_loop_scheduler_simple_loop() {
    let mut scheduler = LoopScheduler::new();

    let grid = fx(1.0);

    let out0 = scheduler.tick(fx(0.0));
    assert_eq!(out0, vec![]);
    scheduler.set_grid_interval(grid);

    scheduler.start_looping();
    let out1 = scheduler.tick(fx(1.0));
    assert_eq!(
        out1,
        vec![
            LoopEvent::StartGrain { duration: grid },
            LoopEvent::FadeOutDry
        ]
    );

    let out15 = scheduler.tick(fx(1.5));
    assert_eq!(out15, vec![]);

    let out2 = scheduler.tick(fx(2.0));
    assert_eq!(out2, vec![LoopEvent::StartGrain { duration: grid }]);

    scheduler.stop_looping();
    let out2 = scheduler.tick(fx(3.0));
    assert_eq!(out2, vec![LoopEvent::StopGrain, LoopEvent::FadeInDry]);
    let out9 = scheduler.tick(fx(9.0));
    assert_eq!(out9, vec![]);
}

#[test]
fn test_loop_scheduler_shorten_loop() {
    let mut scheduler = LoopScheduler::new();

    let grid1 = fx(1.0);
    let grid2 = fx(0.5);

    let out0 = scheduler.tick(fx(0.0));
    assert_eq!(out0, vec![]);
    scheduler.set_grid_interval(grid1);

    scheduler.start_looping();
    let out1 = scheduler.tick(fx(1.0));
    assert_eq!(
        out1,
        vec![
            LoopEvent::StartGrain { duration: grid1 },
            LoopEvent::FadeOutDry
        ]
    );

    let out15 = scheduler.tick(fx(1.5));
    assert_eq!(out15, vec![]);

    let out2 = scheduler.tick(fx(2.0));
    assert_eq!(out2, vec![LoopEvent::StartGrain { duration: grid1 }]);

    let out225 = scheduler.tick(fx(2.25));
    assert_eq!(out225, vec![]);
    scheduler.set_grid_interval(grid2);

    let out25 = scheduler.tick(fx(2.5));
    assert_eq!(
        out25,
        vec![
            LoopEvent::StopGrain,
            LoopEvent::StartGrain { duration: grid2 }
        ]
    );
}

#[test]
fn test_loop_scheduler_lengthen_loop_early() {
    let mut scheduler = LoopScheduler::new();

    let grid1 = fx(1.0);
    let grid2 = fx(4.0);

    let out0 = scheduler.tick(fx(0.0));
    assert_eq!(out0, vec![]);
    scheduler.set_grid_interval(grid1);

    scheduler.start_looping();
    let out1 = scheduler.tick(fx(1.0));
    assert_eq!(
        out1,
        vec![
            LoopEvent::StartGrain { duration: grid1 },
            LoopEvent::FadeOutDry
        ]
    );

    let out15 = scheduler.tick(fx(1.5));
    assert_eq!(out15, vec![]);

    let out2 = scheduler.tick(fx(2.0));
    assert_eq!(out2, vec![LoopEvent::StartGrain { duration: grid1 }]);

    let out225 = scheduler.tick(fx(2.25));
    assert_eq!(out225, vec![]);
    scheduler.set_grid_interval(grid2);

    let out25 = scheduler.tick(fx(3.0));
    assert_eq!(
        out25,
        vec![LoopEvent::StartLegatoGrain {
            duration: fx(1.0),
            offset_reduction: fx(3.0)
        }]
    );

    let out4 = scheduler.tick(fx(4.0));
    assert_eq!(out4, vec![LoopEvent::StartGrain { duration: grid2 }]);

    let out5 = scheduler.tick(fx(8.0));
    assert_eq!(out5, vec![LoopEvent::StartGrain { duration: grid2 }]);
}

#[test]
fn test_loop_scheduler_lengthen_loop_late() {
    let mut scheduler = LoopScheduler::new();

    let grid1 = fx(1.0);
    let grid2 = fx(4.0);

    let out0 = scheduler.tick(fx(0.0));
    assert_eq!(out0, vec![]);
    scheduler.set_grid_interval(grid1);

    scheduler.start_looping();
    let out1 = scheduler.tick(fx(1.0));
    assert_eq!(
        out1,
        vec![
            LoopEvent::StartGrain { duration: grid1 },
            LoopEvent::FadeOutDry
        ]
    );

    let out15 = scheduler.tick(fx(1.5));
    assert_eq!(out15, vec![]);

    let out2 = scheduler.tick(fx(2.0));
    assert_eq!(out2, vec![LoopEvent::StartGrain { duration: grid1 }]);

    let out3 = scheduler.tick(fx(3.0));
    assert_eq!(out3, vec![LoopEvent::StartGrain { duration: grid1 }]);

    scheduler.tick(fx(3.8));
    scheduler.set_grid_interval(grid2);

    let out4 = scheduler.tick(fx(4.0));
    assert_eq!(out4, vec![LoopEvent::StartGrain { duration: grid2 }]);

    let out8 = scheduler.tick(fx(8.0));
    assert_eq!(out8, vec![LoopEvent::StartGrain { duration: grid2 }]);
}

#[test]
fn loop_scheduler_lead_in_moves_events_earlier() {
    let mut scheduler = LoopScheduler::new();
    scheduler.set_fade_lead_in(fx(0.25));
    assert_eq!(scheduler.tick(fx(0.0)), vec![]);
    assert!(scheduler.can_start_looping());
    scheduler.start_looping();
    assert!(scheduler.is_looping());
    assert!(!scheduler.can_start_looping());
    assert_eq!(scheduler.tick(fx(0.5)), vec![]);
    assert_eq!(
        scheduler.tick(fx(0.75)),
        vec![
            LoopEvent::StartGrain { duration: UNIT },
            LoopEvent::FadeOutDry
        ]
    );
    assert_eq!(scheduler.current_song_time(), fx(0.75));
    assert_eq!(scheduler.tick(fx(1.5)), vec![]);
    assert_eq!(
        scheduler.tick(fx(1.75)),
        vec![LoopEvent::StartGrain { duration: UNIT }]
    );
}

#[test]
fn loop_scheduler_reset_drops_everything() {
    let mut scheduler = LoopScheduler::new();
    scheduler.tick(0);
    scheduler.start_looping();
    scheduler.reset();
    assert!(!scheduler.is_looping());
    assert_eq!(scheduler.tick(fx(5.0)), vec![]);
    scheduler.reset();
    assert_eq!(scheduler.tick(fx(6.0)), vec![]);
    assert_eq!(scheduler.grid_interval(), UNIT);
}

#[test]
fn loop_scheduler_refuses_a_start_before_pending_events() {
    let mut scheduler = LoopScheduler::new();
    assert_eq!(scheduler.current_song_time(), -UNIT);
    assert!(scheduler.can_start_looping());
    assert_eq!(scheduler.next_boundary(fx(5.0)), 0);
    assert_eq!(scheduler.next_boundary(MAX_BEATS), 0);
    scheduler.tick(0);
    scheduler.start_looping();
    assert!(!scheduler.can_start_looping());
    assert_eq!(scheduler.tick(fx(0.25)).len(), 2);
    scheduler.stop_looping();
    scheduler.set_grid_interval(fx(0.5));
    assert_eq!(scheduler.next_boundary(fx(0.5)), fx(0.5));
    assert!(!scheduler.can_start_looping());
    scheduler.set_grid_interval(fx(1.0));
    assert!(scheduler.can_start_looping());
    scheduler.start_looping();
    assert_eq!(
        scheduler.tick(fx(1.0)),
        vec![
            LoopEvent::StopGrain,
            LoopEvent::FadeInDry,
            LoopEvent::StartGrain { duration: UNIT },
            LoopEvent::FadeOutDry
        ]
    );
    assert_eq!(
        scheduler.tick(fx(2.0)),
        vec![LoopEvent::StartGrain { duration: UNIT }]
    );
}

#[test]
fn loop_scheduler_second_stop_changes_nothing() {
    let mut scheduler = LoopScheduler::new();
    scheduler.stop_looping();
    assert!(!scheduler.is_looping());
    assert_eq!(scheduler.tick(0), vec![]);
    scheduler.start_looping();
    assert_eq!(scheduler.tick(fx(0.5)).len(), 2);
    scheduler.stop_looping();
    scheduler.tick(fx(0.75));
    scheduler.set_grid_interval(fx(0.25));
    scheduler.stop_looping();
    scheduler.stop_looping();
    assert!(!scheduler.is_looping());
    assert_eq!(scheduler.tick(fx(0.9)), vec![]);
    assert_eq!(
        scheduler.tick(fx(1.0)),
        vec![LoopEvent::StopGrain, LoopEvent::FadeInDry]
    );
    scheduler.stop_looping();
    assert_eq!(scheduler.tick(fx(9.0)), vec![]);
}

#[test]
fn loop_scheduler_starts_before_time_zero() {
    let mut scheduler = LoopScheduler::new();
    scheduler.set_grid_interval(fx(0.4));
    scheduler.start_looping();
    assert_eq!(scheduler.tick(fx(-0.9)), vec![]);
    assert_eq!(
        scheduler.tick(fx(-0.8)),
        vec![
            LoopEvent::StartGrain { duration: fx(0.4) },
            LoopEvent::FadeOutDry
        ]
    );
    scheduler.stop_looping();
    assert_eq!(
        scheduler.tick(fx(-0.4)),
        vec![LoopEvent::StopGrain, LoopEvent::FadeInDry]
    );
    assert_eq!(scheduler.tick(fx(3.0)), vec![]);
}

use metaloop::fixed::UNIT;
use metaloop::grain::Grain;
use metaloop::grain_player::{locate, GrainPlayer, MAX_GRAINS};
use metaloop::ramped_value::RampedValue;

const EPS: f64 = 0.0001;

fn fx(value: f64) -> i64 {
    (value * UNIT as f64).round() as i64
}

fn s(value: f32) -> i64 {
    fx(value as f64)
}

fn float(raw: i64) -> f32 {
    fl(raw) as f32
}

fn fl(raw: i64) -> f64 {
    raw as f64 / UNIT as f64
}

fn floats(reported: (i64, i64)) -> (f32, f32) {
    (fl(reported.0) as f32, fl(reported.1) as f32)
}

fn plain(samples: &Vec<i64>) -> Vec<f32> {
    samples.iter().map(|sample| float(*sample)).collect()
}

fn all_near(a: &Vec<f32>, b: &Vec<f32>, epsilon: f32) {
    if a.len() != b.len() {
        panic!("lengths differ: {} != {}", a.len(), b.len());
    }
    let near = a
        .iter()
        .zip(b.iter())
        .map(|(a, b)| (a - b).abs())
        .all(|x| x < epsilon);
    assert!(near, "left = {:?}\nright = {:?}", a, b);
}

#[test]
fn test_ramped_value() {
    let mut ramped_value = RampedValue::new(fx(0.0));

    ramped_value.set(fx(0.0));
    assert_eq!(fl(ramped_value.tick()), 0.0);

    ramped_value.ramp(fx(1.0), 4);
    assert!((fl(ramped_value.tick()) - 0.2).abs() < EPS);
    assert!((fl(ramped_value.tick()) - 0.4).abs() < EPS);
    assert!((fl(ramped_value.tick()) - 0.6).abs() < EPS);
    assert!((fl(ramped_value.tick()) - 0.8).abs() < EPS);
    assert!((fl(ramped_value.tick()) - 1.0).abs() < EPS);
    assert!((fl(ramped_value.tick()) - 1.0).abs() < EPS);
}

#[test]
fn test_ramped_value_zero_length() {
    let mut ramped_value = RampedValue::new(fx(0.0));

    ramped_value.ramp(fx(1.0), 0);
    assert_eq!(fl(ramped_value.tick()), 1.0);
}

#[test]
fn test_ramped_value_down() {
    let mut ramped_value = RampedValue::new(fx(1.0));

    assert_eq!(fl(ramped_value.tick()), 1.0);

    ramped_value.ramp(fx(0.0), 3);
    assert_eq!(fl(ramped_value.tick()), 0.75);
    assert_eq!(fl(ramped_value.tick()), 0.5);
    assert_eq!(fl(ramped_value.tick()), 0.25);
    assert_eq!(fl(ramped_value.tick()), 0.0);
}

#[test]
fn ramp_lands_on_target_exactly_and_stays() {
    let mut ramped_value = RampedValue::new(-7);
    ramped_value.ramp(1_000_000_003, 6);
    let mut last = 0;
    for _ in 0..7 {
        last = ramped_value.tick();
    }
    assert_eq!(last, 1_000_000_003);
    for _ in 0..5 {
        assert_eq!(ramped_value.tick(), 1_000_000_003);
    }
}

#[test]
fn ramp_levels_round_toward_the_target() {
    let mut up = RampedValue::new(0);
    up.ramp(UNIT, 2);
    assert_eq!(up.tick(), 333_333_334);
    assert_eq!(up.tick(), 666_666_667);
    assert_eq!(up.tick(), UNIT);
    let mut down = RampedValue::new(UNIT);
    down.ramp(0, 2);
    assert_eq!(down.tick(), 666_666_666);
    assert_eq!(down.tick(), 333_333_333);
    assert_eq!(down.tick(), 0);
}

#[test]
fn ramp_reaches_its_target_on_the_last_step_and_not_before() {
    let mut ramped_value = RampedValue::new(0);
    ramped_value.ramp(3, 9);
    let levels: Vec<i64> = (0..11).map(|_| ramped_value.tick()).collect();
    assert_eq!(levels, vec![1, 1, 1, 2, 2, 2, 2, 2, 2, 3, 3]);
    let mut down = RampedValue::new(3);
    down.ramp(0, 9);
    let levels: Vec<i64> = (0..11).map(|_| down.tick()).collect();
    assert_eq!(levels, vec![2, 2, 2, 1, 1, 1, 1, 1, 1, 0, 0]);
}

#[test]
fn ramp_set_cancels_a_ramp_in_flight() {
    let mut ramped_value = RampedValue::new(0);
    ramped_value.ramp(UNIT, 9);
    ramped_value.tick();
    ramped_value.set(fx(0.5));
    assert_eq!(ramped_value.tick(), fx(0.5));
    assert_eq!(ramped_value.tick(), fx(0.5));
}

#[test]
fn ramp_restarts_from_the_level_reached() {
    let mut ramped_value = RampedValue::new(0);
    ramped_value.ramp(UNIT, 3);
    assert_eq!(ramped_value.tick(), fx(0.25));
    assert_eq!(ramped_value.tick(), fx(0.5));
    ramped_value.ramp(0, 1);
    assert_eq!(ramped_value.tick(), fx(0.25));
    assert_eq!(ramped_value.tick(), 0);
}

#[test]
fn test_grain() {
    let mut grain = Grain::new(0, fx(10.0), 5, 0, false, fx(1.0));

    let expected = vec![
        (9.0, 1.0),
        (8.0, 1.0),
        (7.0, 1.0),
        (6.0, 1.0),
        (5.0, 1.0),
        (0.0, 0.0),
    ];
    let mut out = vec![];
    for _i in 0..expected.len() {
        out.push(floats(grain.tick()));
    }

    assert_eq!(out, expected);
    assert!(grain.is_finished());
}

#[test]
fn test_grain_wait() {
    let mut grain = Grain::new(1, fx(10.0), 5, 0, false, fx(1.0));

    let expected = vec![
        (0.0, 0.0),
        (9.0, 1.0),
        (8.0, 1.0),
        (7.0, 1.0),
        (6.0, 1.0),
        (5.0, 1.0),
        (0.0, 0.0),
    ];
    let mut out = vec![];
    for _i in 0..expected.len() {
        out.push(floats(grain.tick()));
    }

    assert_eq!(out, expected);
    assert!(grain.is_finished());
}

#[test]
fn test_grain_fade() {
    let mut grain = Grain::new(0, fx(10.0), 9, 3, false, fx(1.0));

    let expected = vec![
        (9.0, 0.25),
        (8.0, 0.5),
        (7.0, 0.75),
        (6.0, 1.0),
        (5.0, 1.0),
        (4.0, 1.0),
        (3.0, 0.75),
        (2.0, 0.5),
        (1.0, 0.25),
        (0.0, 0.0),
    ];
    let mut out = vec![];
    for _i in 0..expected.len() {
        out.push(floats(grain.tick()));
    }

    assert_eq!(out, expected);
}

#[test]
fn test_grain_stop() {
    let mut grain = Grain::new(0, fx(20.0), 15, 3, false, fx(1.0));

    let expected = vec![
        (19.0, 0.25),
        (18.0, 0.5),
        (17.0, 0.75),
        (16.0, 1.0),
        (15.0, 1.0),
    ];
    let mut out = vec![];
    for _i in 0..expected.len() {
        out.push(floats(grain.tick()));
    }

    assert_eq!(out, expected);

    grain.stop();
    let expected_fade = vec![
        (14.0, 0.75),
        (13.0, 0.5),
        (12.0, 0.25),
        (0.0, 0.0),
        (0.0, 0.0),
    ];

    let mut out = vec![];
    for _i in 0..expected_fade.len() {
        out.push(floats(grain.tick()));
    }

    assert_eq!(out, expected_fade);
    assert!(grain.is_finished());
}

#[test]
fn test_grain_reverse() {
    let mut grain = Grain::new(0, fx(10.0), 5, 0, true, fx(1.0));

    let expected = vec![(5.0, 1.0), (6.0, 1.0), (7.0, 1.0), (8.0, 1.0), (9.0, 1.0)];
    let mut out = vec![];
    for _i in 0..expected.len() {
        out.push(floats(grain.tick()));
    }

    assert_eq!(out, expected);
    assert!(grain.is_finished());

    let mut grain = Grain::new(0, fx(10.0), 5, 0, false, fx(1.0));
    let mut out_fwd = vec![];
    for _i in 0..expected.len() {
        out_fwd.push(floats(grain.tick()));
    }
    out_fwd.reverse();
    assert_eq!(out, out_fwd);
}

#[test]
fn test_grain_fade_reverse() {
    let mut grain = Grain::new(0, fx(10.0), 10, 3, true, fx(1.0));

    let expected = vec![
        (0.0, 0.25),
        (1.0, 0.5),
        (2.0, 0.75),
        (3.0, 1.0),
        (4.0, 1.0),
        (5.0, 1.0),
        (6.0, 1.0),
        (7.0, 0.75),
        (8.0, 0.5),
        (9.0, 0.25),
        (0.0, 0.0),
    ];
    let mut out = vec![];
    for _i in 0..expected.len() {
        out.push(floats(grain.tick()));
    }

    assert_eq!(out, expected);
}

#[test]
fn test_grain_half_speed() {
    let mut grain = Grain::new(0, fx(10.0), 5, 0, false, fx(0.5));

    let expected = vec![
        (9.0, 1.0),
        (8.5, 1.0),
        (8.0, 1.0),
        (7.5, 1.0),
        (7.0, 1.0),
        (0.0, 0.0),
    ];
    let mut out = vec![];
    for _i in 0..expected.len() {
        out.push(floats(grain.tick()));
    }

    assert_eq!(out, expected);
    assert!(grain.is_finished());
}

#[test]
fn grain_clamps_a_fade_longer_than_half_its_duration() {
    let mut grain = Grain::new(0, 0, 5, 4, false, UNIT);
    assert_eq!(grain.duration(), 5);
    assert_eq!(grain.offset(), 0);
    assert!(grain.is_fading_in());
    let gains: Vec<i64> = (0..5).map(|_| grain.tick().1).collect();
    assert_eq!(
        gains,
        vec![333_333_334, 666_666_667, UNIT, 666_666_666, 333_333_333]
    );
    assert!(grain.is_finished());
}

#[test]
fn grain_queries_follow_the_counters() {
    let mut grain = Grain::new(2, fx(8.0), 6, 2, false, UNIT);
    assert!(grain.is_waiting());
    assert!(!grain.is_playing());
    assert!(!grain.is_finished());
    grain.tick();
    grain.tick();
    assert!(!grain.is_waiting());
    assert!(grain.is_playing());
    assert!(grain.is_fading_in());
    assert!(!grain.is_fading_out());
    assert_eq!(grain.delay_position(), fx(7.0));
    for _ in 0..5 {
        assert!(!grain.is_finished());
        grain.tick();
    }
    assert_eq!(grain.elapsed_sample_count(), 5);
    assert!(grain.is_fading_out());
    assert!(!grain.is_finished());
    grain.tick();
    assert!(grain.is_finished());
    assert_eq!(grain.elapsed_sample_count(), grain.duration());
}

#[test]
fn grain_stop_twice_changes_nothing_more() {
    let mut once = Grain::new(0, fx(20.0), 15, 3, false, UNIT);
    let mut twice = Grain::new(0, fx(20.0), 15, 3, false, UNIT);
    for _ in 0..5 {
        once.tick();
        twice.tick();
    }
    once.stop();
    twice.stop();
    twice.stop();
    assert_eq!(once.duration(), 8);
    assert_eq!(twice.duration(), 8);
    let mut sounding = 0;
    while !once.is_finished() {
        let a = once.tick();
        let b = twice.tick();
        assert_eq!(a, b);
        assert!(a.1 > 0);
        sounding += 1;
    }
    assert_eq!(sounding, 3);
    assert!(twice.is_finished());
}

#[test]
fn grain_stop_within_the_closing_fade_is_ignored() {
    let mut grain = Grain::new(0, fx(20.0), 6, 2, false, UNIT);
    for _ in 0..5 {
        grain.tick();
    }
    assert!(grain.is_fading_out());
    grain.stop();
    assert_eq!(grain.duration(), 6);
}

#[test]
fn grain_positions_stop_at_the_ends_of_the_range() {
    let mut grain = Grain::new(0, i64::MIN, 3, 0, false, i64::MAX);
    assert_eq!(grain.tick().0, i64::MIN);
    assert_eq!(grain.tick().0, i64::MIN);
    let mut reversed = Grain::new(0, i64::MAX, 3, 0, true, i64::MIN);
    assert_eq!(reversed.tick().0, i64::MAX - 3 * UNIT);
    assert_eq!(reversed.tick().0, -3 * UNIT);
    assert_eq!(reversed.tick().0, i64::MIN);
}

#[test]
fn test_grain_player_state() {
    let mut player = GrainPlayer::new_with_length(100, 10, 10);

    player.schedule_grain(Grain::new(2, fx(10.0), 4, 0, false, fx(1.0)));

    assert_eq!(player.num_scheduled_grains(), 1);
    assert_eq!(player.num_playing_grains(), 0);
    assert_eq!(player.num_finished_grains(), MAX_GRAINS - 1);

    for _ in 0..2 {
        player.tick(s(0.0));
    }

    assert_eq!(player.num_scheduled_grains(), 0);
    assert_eq!(player.num_playing_grains(), 1);
    assert_eq!(player.num_finished_grains(), MAX_GRAINS - 1);

    for _ in 0..4 {
        player.tick(s(0.0));
    }
    assert_eq!(player.num_scheduled_grains(), 0);
    assert_eq!(player.num_playing_grains(), 0);
    assert_eq!(player.num_finished_grains(), MAX_GRAINS);
}

#[test]
fn test_grain_player_stop_all() {
    let mut player = GrainPlayer::new_with_length(100, 10, 10);

    player.schedule_grain(Grain::new(0, fx(10.0), 4, 2, false, fx(1.0)));
    player.schedule_grain(Grain::new(0, fx(10.0), 10, 2, false, fx(1.0)));

    assert_eq!(player.num_playing_grains(), 2);

    player.tick(s(0.0));

    assert_eq!(player.num_playing_grains(), 2);

    player.stop_all_grains();

    player.tick(s(0.0));

    assert_eq!(player.num_playing_grains(), 2);

    player.tick(s(0.0));
    player.tick(s(0.0));

    assert_eq!(player.num_playing_grains(), 0);
    assert_eq!(player.num_finished_grains(), 10);
}

#[test]
fn test_grain_player_dry_grain() {
    let mut player = GrainPlayer::<i64>::new_with_length(10, 0, 10);

    player.schedule_grain(Grain::new(0, fx(0.0), 20, 0, false, fx(1.0)));

    let num_samples = 10;

    let input: Vec<f32> = (0..num_samples).map(|x| x as f32).collect();
    let mut input_iter = input.iter();

    let mut output = vec![];
    for _ in 0..num_samples {
        output.push(float(player.tick(s(*input_iter.next().unwrap()))));
    }

    assert_eq!(output, input);
}

#[test]
fn test_grain_player_static_buffer_states() {
    let mut player = GrainPlayer::<i64>::new_with_length(8, 0, 2);
    let p = 10;
    let pre_input: Vec<f32> = (0..p).map(|x| x as f32).collect();
    for input in pre_input.iter() {
        player.tick(s(*input));
    }
    player.start_looping();

    let input: Vec<f32> = (0..20).map(|x| (x + 10) as f32).collect();
    let mut input_iter = input.iter();

    let mut output = vec![];
    for i in 0..10 {
        assert!(
            !player.is_using_static_buffer(),
            "is using static buffer after {}",
            i
        );
        assert!(player.is_filling_static_buffer());
        output.push(float(player.tick(s(*input_iter.next().unwrap()))));
    }

    assert!(!player.is_filling_static_buffer());
    let expected_static = vec![2.0, 3.0, 4.0, 5.0, 6.0, 7.0, 8.0, 9.0, 10.0, 11.0];
    let static_buffer = plain(player.static_buffer().buffer());
    assert_eq!(static_buffer, expected_static);

    for _i in 0..10 {
        assert!(player.is_using_static_buffer());
        assert!(!player.is_filling_static_buffer());
        output.push(float(player.tick(s(*input_iter.next().unwrap()))));
    }
    assert_eq!(plain(player.static_buffer().buffer()), expected_static);
    let mut expected_rolling1: Vec<f32> = (18..30).map(|x| x as f32).collect();
    let expected_rolling2: Vec<f32> = (12..18).map(|x| x as f32).collect();
    expected_rolling1.extend(expected_rolling2);
    let rolling_buffer = plain(player.rolling_buffer().buffer());
    assert_eq!(rolling_buffer, expected_rolling1);

    assert_eq!(output, vec![0.0; 20]);
}

#[test]
fn test_grain_player_output() {
    let mut player = GrainPlayer::<i64>::new_with_length(10, 0, 10);

    let n_pre_input = 10;
    let pre_input: Vec<f32> = (0..n_pre_input).map(|x| x as f32).collect();
    for input in pre_input.iter() {
        player.tick(s(*input));
    }

    player.start_looping();
    let n_input = n_pre_input + 5 + 6 + 6;
    let input: Vec<f32> = (n_pre_input..n_input).map(|x| x as f32).collect();

    player.schedule_grain(Grain::new(2, fx(5.0), 3, 0, false, fx(1.0)));
    let expected_g1 = vec![0.0, 0.0, 5.0, 6.0, 7.0];

    player.schedule_grain(Grain::new(8, fx(5.0), 3, 0, false, fx(1.0)));
    let expected_g2 = vec![0.0, 0.0, 0.0, 5.0, 6.0, 7.0];

    player.schedule_grain(Grain::new(14, fx(5.0), 3, 0, false, fx(1.0)));
    let expected_g3 = vec![0.0, 0.0, 0.0, 5.0, 6.0, 7.0];

    let mut input_iter = input.iter();

    let mut out1 = vec![];
    for _ in expected_g1.iter() {
        out1.push(float(player.tick(s(*input_iter.next().unwrap()))));
    }

    assert_eq!(out1, expected_g1);

    let mut out2 = vec![];
    for _ in expected_g2.iter() {
        out2.push(float(player.tick(s(*input_iter.next().unwrap()))));
    }
    assert_eq!(out2, expected_g2);

    let mut out3 = vec![];
    for _ in expected_g3.iter() {
        out3.push(float(player.tick(s(*input_iter.next().unwrap()))));
    }
    assert_eq!(out3, expected_g3);
}

#[test]
fn test_grain_player_output_fade() {
    let mut player = GrainPlayer::<i64>::new_with_length(10, 4, 10);
    let n_pre_input = 10;
    let pre_input: Vec<f32> = (0..n_pre_input).map(|x| x as f32).collect();
    for input in pre_input.iter() {
        player.tick(s(*input));
    }

    let n_input = n_pre_input + 6 + 6 + 6;
    player.start_looping();
    let input: Vec<f32> = (n_pre_input..n_input).map(|x| (x + 10) as f32).collect();

    let fade = 1;

    player.schedule_grain(Grain::new(2, fx(5.0), 4, fade, false, fx(1.0)));

    let expected_g1 = vec![0.0, 0.0, 2.5, 6.0, 7.0, 4.0];

    player.schedule_grain(Grain::new(8, fx(5.0), 4, fade, false, fx(1.0)));
    let expected_g2 = vec![0.0, 0.0, 2.5, 6.0, 7.0, 4.0];

    player.schedule_grain(Grain::new(14, fx(5.0), 4, fade, true, fx(1.0)));
    let expected_g3 = vec![0.0, 0.0, 4.0, 7.0, 6.0, 2.5];

    let mut input_iter = input.iter();

    let mut out1 = vec![];
    for _ in expected_g1.iter() {
        out1.push(float(player.tick(s(*input_iter.next().unwrap()))));
    }

    assert_eq!(out1, expected_g1);

    let mut out2 = vec![];
    for _ in expected_g2.iter() {
        out2.push(float(player.tick(s(*input_iter.next().unwrap()))));
    }
    assert_eq!(out2, expected_g2);

    let mut out3 = vec![];
    for _ in expected_g3.iter() {
        out3.push(float(player.tick(s(*input_iter.next().unwrap()))));
    }
    assert_eq!(out3, expected_g3);
}

#[test]
fn test_grain_player_immediate_reverse_with_fade() {
    let mut player = GrainPlayer::new_with_length(50, 4, 10);
    let mut out = vec![];

    let loop_start_at = 8;
    let stop_at = 12;

    for i in 0..loop_start_at {
        out.push(float(player.tick(s(i as f32))));
    }

    player.start_looping();
    player.schedule_grain(Grain::new(0, fx(4.0), 4, 1, true, fx(1.0)));

    for i in loop_start_at..stop_at {
        out.push(float(player.tick(s(i as f32))));
    }

    let mut expected = vec![0.0; 8];

    let grain_samples = vec![3.5, 6.0, 5.0, 2.0];

    expected.extend(&grain_samples);

    assert_eq!(out, expected);
    all_near(&out, &expected, 0.0001);
}

#[test]
fn saturated_pool_drops_the_newest_grain() {
    let mut player = GrainPlayer::<i64>::new_with_length(10, 0, 10);
    for slot in 0..MAX_GRAINS {
        player.schedule_grain(Grain::new(slot + 1, 0, 50, 0, false, UNIT));
    }
    assert_eq!(player.num_scheduled_grains(), MAX_GRAINS);
    assert_eq!(player.num_finished_grains(), 0);
    player.schedule_grain(Grain::new(0, 0, 3, 0, false, UNIT));
    assert_eq!(player.num_scheduled_grains(), MAX_GRAINS);
    assert_eq!(player.num_playing_grains(), 0);
    assert!(player.most_recent_grain().is_none());
}

#[test]
fn grains_take_the_first_finished_slot() {
    let mut player = GrainPlayer::<i64>::new_with_length(10, 0, 10);
    player.schedule_grain(Grain::new(0, 0, 2, 0, false, UNIT));
    player.schedule_grain(Grain::new(0, 0, 9, 0, false, UNIT));
    player.tick(s(0.0));
    player.tick(s(0.0));
    assert_eq!(player.num_playing_grains(), 1);
    player.schedule_grain(Grain::new(0, fx(3.0), 7, 0, false, UNIT));
    assert_eq!(player.num_playing_grains(), 2);
    let newest = player.most_recent_grain().unwrap();
    assert_eq!(newest.elapsed_sample_count(), 0);
    assert_eq!(newest.duration(), 7);
    assert_eq!(newest.offset(), fx(3.0));
}

#[test]
fn most_recent_grain_is_the_first_of_the_youngest() {
    let mut player = GrainPlayer::<i64>::new_with_length(10, 0, 10);
    player.schedule_grain(Grain::new(0, 0, 9, 0, false, UNIT));
    player.tick(s(0.0));
    player.schedule_grain(Grain::new(0, fx(1.0), 5, 0, false, UNIT));
    player.schedule_grain(Grain::new(0, fx(2.0), 6, 0, false, UNIT));
    player.schedule_grain(Grain::new(3, fx(3.0), 6, 0, false, UNIT));
    let newest = player.most_recent_grain().unwrap();
    assert_eq!(newest.duration(), 5);
    assert_eq!(player.num_scheduled_grains(), 1);
    assert_eq!(player.num_playing_grains(), 3);
}

#[test]
fn mix_is_the_sum_of_the_grains_reads_times_their_gains() {
    let mut player = GrainPlayer::<i64>::new_with_length(10, 2, 8);
    for i in 0..6 {
        player.tick(s((1 << i) as f32));
    }
    let mut first = Grain::new(0, fx(-4.0), 4, 1, false, UNIT);
    let mut second = Grain::new(0, fx(-2.5), 4, 0, true, fx(0.5));
    player.schedule_grain(first);
    player.schedule_grain(second);
    let mut history = vec![32.0f32, 16.0, 8.0, 4.0, 2.0, 1.0];
    history.extend(vec![0.0; 30]);
    for step in 1..=4usize {
        let input = (100 * step) as f32;
        history.insert(0, input);
        let mut expected: i64 = s(0.0);
        for grain in [&mut first, &mut second] {
            let (position, gain) = grain.tick();
            let delay = position + 6 * UNIT + step as i64 * UNIT;
            let whole = (delay / UNIT) as usize;
            let frac = delay % UNIT;
            let upper = if frac == 0 { whole } else { whole + 1 };
            let low = s(history[whole]) as i128;
            let high = s(history[upper]) as i128;
            let read = (high - low) * frac as i128 / UNIT as i128 + low;
            expected += (read * gain as i128 / UNIT as i128) as i64;
        }
        assert!(expected != 0);
        assert!(player.can_tick());
        assert_eq!(player.tick(s(input)), expected);
    }
    assert_eq!(player.num_playing_grains(), 0);
}

#[test]
fn can_tick_refuses_a_read_outside_the_buffer() {
    let mut player = GrainPlayer::<i64>::new_with_length(4, 0, 2);
    assert!(player.can_tick());
    player.tick(s(1.0));
    player.schedule_grain(Grain::new(0, fx(20.0), 3, 0, false, UNIT));
    assert!(!player.can_tick());
    let mut early = GrainPlayer::<i64>::new_with_length(4, 0, 2);
    early.schedule_grain(Grain::new(0, fx(-3.0), 3, 0, false, UNIT));
    assert!(!early.can_tick());
    let empty = GrainPlayer::<i64>::new_with_length(0, 0, 0);
    assert!(!empty.can_tick());
}

#[test]
fn locate_finds_the_delay_or_nothing() {
    assert_eq!(locate(fx(2.5), 3, 10), Some((5, fx(0.5))));
    assert_eq!(locate(fx(-1.0), 1, 10), Some((0, 0)));
    assert_eq!(locate(fx(-1.5), 1, 10), None);
    assert_eq!(locate(fx(-0.5), 1, 10), Some((0, fx(0.5))));
    assert_eq!(locate(fx(8.0), 1, 10), Some((9, 0)));
    assert_eq!(locate(fx(8.25), 1, 10), None);
    assert_eq!(locate(fx(9.0), 1, 10), None);
}

#[test]
fn static_buffer_takes_over_after_its_own_length() {
    let mut player = GrainPlayer::<i64>::new_with_length(3, 1, 2);
    assert_eq!(player.loopable_region_length(), 3);
    assert_eq!(player.ticks_before_switch_to_static_buffer(), 6);
    for i in 0..4 {
        player.tick(s(i as f32));
    }
    player.start_looping();
    assert_eq!(player.rolling_offset(), 0);
    for i in 4..9 {
        player.tick(s(i as f32));
        assert!(player.is_filling_static_buffer());
        assert!(!player.is_using_static_buffer());
    }
    player.tick(s(9.0));
    assert!(player.is_using_static_buffer());
    for delay in 0..6 {
        assert_eq!(
            player.static_buffer().read(delay),
            player.rolling_buffer().read(delay + 3)
        );
    }
    let frozen = plain(player.static_buffer().buffer());
    for i in 10..30 {
        player.tick(s(i as f32));
        assert!(player.is_using_static_buffer());
    }
    assert_eq!(plain(player.static_buffer().buffer()), frozen);
    player.stop_looping();
    assert!(player.is_using_static_buffer());
    player.start_looping();
    assert!(player.is_filling_static_buffer());
    player.stop_looping();
    assert!(!player.is_filling_static_buffer());
    assert!(!player.is_using_static_buffer());
    player.reset();
    assert_eq!(plain(player.rolling_buffer().buffer()), vec![0.0; 9]);
    assert_eq!(plain(player.static_buffer().buffer()), vec![0.0; 6]);
}

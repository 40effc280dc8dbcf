use live_chart::chart::Chart;
use live_chart::event::Action;
use live_chart::event::Event;
use live_chart::frame::Rgb;
use live_chart::push_loop::LoopAction;
use live_chart::push_loop::PushLoop;
use live_chart::sample::Sample;
use rand::SeedableRng;
use rand_distr::Distribution;
use rand_distr::Normal;
use rand_xorshift::XorShiftRng;

fn sample(x: f64) -> Sample {
    Sample::accept(x.to_bits()).unwrap()
}

fn values(chart: &Chart<u32>) -> Vec<f64> {
    chart.samples().iter().map(|s| f64::from_bits(s.to_bits())).collect()
}

fn seeded_draws(count: usize) -> Vec<Sample> {
    let normal: Normal<f64> = Normal::new(500.0, 100.0).unwrap();
    let rng = XorShiftRng::from_seed(*b"MyFragileSeed123");
    normal
        .sample_iter(rng)
        .filter_map(|x: f64| Sample::accept(x.to_bits()))
        .take(count)
        .collect()
}

#[test]
fn a_mounted_session_is_empty_and_not_started() {
    let chart: Chart<u32> = Chart::mount(Some(7));
    assert!(chart.samples().is_empty());
    assert!(!chart.has_started());
    assert!(chart.holds_socket());
}

#[test]
fn a_session_can_be_mounted_without_a_socket() {
    let chart: Chart<u32> = Chart::mount(None);
    assert!(chart.samples().is_empty());
    assert!(!chart.has_started());
    assert!(!chart.holds_socket());
}

#[test]
fn the_first_start_hands_out_the_socket() {
    let mut chart: Chart<u32> = Chart::mount(Some(7));
    assert_eq!(chart.handle(Event::Start), Action::SpawnPushLoop(7));
    assert!(chart.has_started());
    assert!(!chart.holds_socket());
    assert!(chart.samples().is_empty());
}

#[test]
fn many_starts_spawn_one_push_loop() {
    let mut chart: Chart<u32> = Chart::mount(Some(7));
    let mut spawned = 0;
    for _ in 0..50 {
        if let Action::SpawnPushLoop(socket) = chart.handle(Event::Start) {
            assert_eq!(socket, 7);
            spawned += 1;
        }
        assert!(chart.has_started());
    }
    assert_eq!(spawned, 1);
}

#[test]
fn starts_between_samples_spawn_one_push_loop() {
    let mut chart: Chart<u32> = Chart::mount(Some(3));
    assert_eq!(chart.handle(Event::PushData(sample(1.0))), Action::Idle);
    assert_eq!(chart.handle(Event::Start), Action::SpawnPushLoop(3));
    assert_eq!(chart.handle(Event::PushData(sample(2.0))), Action::Idle);
    assert_eq!(chart.handle(Event::Start), Action::Idle);
    assert_eq!(chart.handle(Event::PushData(sample(3.0))), Action::Idle);
    assert_eq!(chart.handle(Event::Start), Action::Idle);
    assert_eq!(values(&chart), vec![1.0, 2.0, 3.0]);
}

#[test]
fn a_start_without_a_socket_spawns_nothing() {
    let mut chart: Chart<u32> = Chart::mount(None);
    assert_eq!(chart.handle(Event::Start), Action::Idle);
    assert!(chart.has_started());
    assert!(!chart.holds_socket());
    assert_eq!(chart.handle(Event::Start), Action::Idle);
    assert!(!chart.render().show_start);
}

#[test]
fn push_data_appends_in_the_order_of_delivery() {
    let mut chart: Chart<u32> = Chart::mount(Some(1));
    chart.handle(Event::PushData(sample(10.0)));
    chart.handle(Event::PushData(sample(20.5)));
    assert_eq!(values(&chart), vec![10.0, 20.5]);
    let given = [700.0, -3.25, 0.0, 1499.5, 20.5, 10.0];
    for x in given {
        assert_eq!(chart.handle(Event::PushData(sample(x))), Action::Idle);
    }
    assert_eq!(chart.samples().len(), 2 + given.len());
    assert_eq!(values(&chart), vec![10.0, 20.5, 700.0, -3.25, 0.0, 1499.5, 20.5, 10.0]);
}

#[test]
fn push_data_leaves_the_start_state_alone() {
    let mut chart: Chart<u32> = Chart::mount(Some(1));
    chart.handle(Event::PushData(sample(10.0)));
    assert!(!chart.has_started());
    assert!(chart.holds_socket());
    chart.handle(Event::Start);
    chart.handle(Event::PushData(sample(11.0)));
    assert!(chart.has_started());
    assert!(!chart.holds_socket());
}

#[test]
fn an_empty_session_renders_an_empty_chart() {
    let chart: Chart<u32> = Chart::mount(Some(1));
    let frame = chart.render();
    assert_eq!(frame.x_domain, (0, 0));
    assert!(frame.x_domain.0 <= frame.x_domain.1);
    assert!(frame.series.is_empty());
    assert!(frame.show_start);
}

#[test]
fn one_sample_renders_a_domain_of_one_point() {
    let mut chart: Chart<u32> = Chart::mount(Some(1));
    chart.handle(Event::PushData(sample(640.0)));
    let frame = chart.render();
    assert_eq!(frame.x_domain, (0, 0));
    assert_eq!(frame.series, vec![(0, sample(640.0))]);
}

#[test]
fn the_series_pairs_each_sample_with_its_index() {
    let mut chart: Chart<u32> = Chart::mount(Some(1));
    for x in [400.0, 500.0, 600.0, 450.0] {
        chart.handle(Event::PushData(sample(x)));
    }
    let frame = chart.render();
    assert_eq!(frame.x_domain, (0, 3));
    assert_eq!(
        frame.series,
        vec![(0, sample(400.0)), (1, sample(500.0)), (2, sample(600.0)), (3, sample(450.0))]
    );
}

#[test]
fn the_layout_of_a_frame_is_fixed() {
    let mut chart: Chart<u32> = Chart::mount(Some(1));
    for round in 0..3 {
        let frame = chart.render();
        assert_eq!(frame.canvas, (1024, 768));
        assert_eq!(frame.background, Rgb { red: 255, green: 255, blue: 255 });
        assert_eq!(frame.y_domain, (0, 1500));
        assert!(!frame.x_mesh);
        assert!(!frame.y_mesh);
        assert_eq!(frame.series_color, Rgb { red: 255, green: 0, blue: 0 });
        assert_eq!(frame.fill_opacity_percent, 20);
        chart.handle(Event::PushData(sample(100.0 * f64::from(round))));
        chart.handle(Event::Start);
    }
}

#[test]
fn rendering_leaves_the_session_as_it_was() {
    let mut chart: Chart<u32> = Chart::mount(Some(1));
    chart.handle(Event::PushData(sample(1.5)));
    let first = chart.render();
    let second = chart.render();
    assert_eq!(first, second);
    assert_eq!(values(&chart), vec![1.5]);
    assert!(!chart.has_started());
    assert!(chart.holds_socket());
}

#[test]
fn the_start_control_is_shown_until_the_first_start() {
    let mut chart: Chart<u32> = Chart::mount(Some(1));
    assert!(chart.render().show_start);
    chart.handle(Event::PushData(sample(5.0)));
    assert!(chart.render().show_start);
    chart.handle(Event::Start);
    assert!(!chart.render().show_start);
    chart.handle(Event::PushData(sample(6.0)));
    assert!(!chart.render().show_start);
    chart.handle(Event::Start);
    assert!(!chart.render().show_start);
}

#[test]
fn sessions_with_the_same_seed_have_the_same_samples() {
    let mut first: Chart<u32> = Chart::mount(Some(1));
    let mut second: Chart<u32> = Chart::mount(Some(2));
    for draw in seeded_draws(300) {
        first.handle(Event::PushData(draw));
    }
    second.handle(Event::Start);
    for draw in seeded_draws(300) {
        second.handle(Event::PushData(draw));
    }
    assert_eq!(first.samples().len(), 300);
    assert_eq!(first.samples(), second.samples());
    assert_eq!(values(&first), values(&second));
    assert_ne!(values(&first)[0], values(&first)[1]);
}

#[test]
fn a_session_from_mount_to_disconnect() {
    let mut session: Chart<u32> = Chart::mount(Some(42));
    let frame = session.render();
    assert!(frame.series.is_empty());
    assert_eq!(frame.x_domain, (0, 0));
    assert!(frame.show_start);

    let mut tasks: Vec<(u32, PushLoop)> = Vec::new();
    if let Action::SpawnPushLoop(socket) = session.handle(Event::Start) {
        tasks.push((socket, PushLoop::new()));
    }
    assert!(session.has_started());
    assert_eq!(tasks.len(), 1);
    assert_eq!(tasks[0].0, 42);
    assert!(!session.render().show_start);

    let mut cursor = seeded_draws(5).into_iter();
    for _ in 0..5 {
        assert_eq!(tasks[0].1.next_action(), LoopAction::Tick { millis: 10 });
        let action = session.handle(Event::PushData(cursor.next().unwrap()));
        assert_eq!(action, Action::Idle);
        tasks[0].1.on_delivery(true);
    }
    assert_eq!(session.samples().len(), 5);
    assert!(values(&session).iter().all(|x| *x < 1500.0));
    let frame = session.render();
    assert_eq!(frame.x_domain, (0, 4));
    assert_eq!(frame.series.len(), 5);

    assert_eq!(tasks[0].1.next_action(), LoopAction::Tick { millis: 10 });
    tasks[0].1.on_delivery(false);
    assert_eq!(tasks[0].1.next_action(), LoopAction::Exit);
    if let Action::SpawnPushLoop(socket) = session.handle(Event::Start) {
        tasks.push((socket, PushLoop::new()));
    }
    assert_eq!(tasks.len(), 1);
    assert_eq!(tasks[0].1.next_action(), LoopAction::Exit);
    assert_eq!(session.samples().len(), 5);
}

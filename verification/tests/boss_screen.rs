use twr::boss::{
    format_ts, make_template, pick, xorshift_step, seed_for, BossState, HeaderMetrics, Level, INITIAL_LINES,
    MAX_LINES,
};

#[test]
fn xorshift_step_matches_reference() {
    let mut s = 1u64;
    let r = xorshift_step(&mut s);
    assert_eq!(r, 1082269761);
    assert_eq!(s, 1082269761);
}

#[test]
fn boss_state_draws_from_its_generator() {
    let mut b = BossState::seeded(1, &[], std::time::Instant::now());
    assert_eq!(b.pick_template(0), (Level::Debug, "cache miss key=usr:869761 ttl=300s".to_string()));
    let mut s = 1082269761u64;
    let expected = xorshift_step(&mut s);
    assert_eq!(b.next_rand(), expected);
    assert_eq!(b.len(), 0);
}

#[test]
fn seed_is_odd_hash_of_time() {
    assert_eq!(seed_for(1700000000), 16137603559555654007);
    assert_eq!(seed_for(0) % 2, 1);
}

#[test]
fn templates_cover_every_level() {
    assert_eq!(make_template(1, 1700000000), (Level::Info, "GET /api/orders → 200 6ms client=\"10.1.0.0\"".to_string()));
    assert_eq!(make_template(23, 0), (Level::Debug, "cache miss key=usr:200023 ttl=300s".to_string()));
    assert_eq!(make_template(53, 0), (Level::Warn, "worker-2 retrying job=16000053 attempt=2/5".to_string()));
    assert_eq!(
        make_template(97, 1700000000),
        (
            Level::Error,
            "upstream timeout after 1297ms route=\"DELETE /api/sessions/100097\" trace_id=000000006553f161"
                .to_string()
        )
    );
    assert_eq!(make_template(1082269761, 0).1, "cache miss key=usr:869761 ttl=300s");
}

#[test]
fn pick_selects_by_remainder() {
    assert_eq!(pick(&10, &[1, 2, 3]), 2);
    assert_eq!(pick(&0, &["a"]), "a");
}

#[test]
fn format_ts_is_utc_clock() {
    assert_eq!(format_ts(0), "00:00:00");
    assert_eq!(format_ts(86399), "23:59:59");
    assert_eq!(format_ts(1700000000), "22:13:20");
}

#[test]
fn level_labels_are_five_wide() {
    assert_eq!(Level::Info.label(), "INFO ");
    assert_eq!(Level::Warn.label(), "WARN ");
    assert_eq!(Level::Error.label(), "ERROR");
    assert_eq!(Level::Debug.label(), "DEBUG");
}

#[test]
fn new_log_starts_with_initial_lines() {
    let b = BossState::new();
    assert_eq!(b.len(), INITIAL_LINES);
    assert_eq!(b.counter(), INITIAL_LINES as u64);
}

#[test]
fn log_never_exceeds_max_lines_and_drops_oldest() {
    let tss: Vec<u64> = (0..300u64).collect();
    let mut b = BossState::seeded(1, &tss, std::time::Instant::now());
    assert_eq!(b.len(), MAX_LINES);
    let lines = b.lines();
    assert_eq!(lines[0].ts_secs, 300 - MAX_LINES as u64);
    assert_eq!(lines[MAX_LINES - 1].ts_secs, 299);
    b.emit_at(1000);
    assert_eq!(b.len(), MAX_LINES);
    assert_eq!(b.lines()[MAX_LINES - 1].ts_secs, 1000);
    assert_eq!(b.counter(), 301);
}

#[test]
fn first_generated_line_uses_first_random_value() {
    let b = BossState::seeded(1, &[7], std::time::Instant::now());
    let lines = b.lines();
    assert_eq!(lines.len(), 1);
    assert_eq!(lines[0].level, Level::Debug);
    assert_eq!(lines[0].message, "cache miss key=usr:869761 ttl=300s");
    assert_eq!(lines[0].timestamp(), "00:00:07");
}

#[test]
fn visible_lines_are_the_newest() {
    let tss: Vec<u64> = (0..10u64).collect();
    let b = BossState::seeded(5, &tss, std::time::Instant::now());
    let v = b.visible_lines(3);
    assert_eq!(v.iter().map(|l| l.ts_secs).collect::<Vec<_>>(), vec![7, 8, 9]);
    assert_eq!(b.visible_lines(50).len(), 10);
}

#[test]
fn header_metrics_follow_counter() {
    let tss: Vec<u64> = (0..24u64).collect();
    let b = BossState::seeded(5, &tss, std::time::Instant::now());
    assert_eq!(
        b.metrics(),
        HeaderMetrics { requests_per_sec: 416, p50_ms: 13, p99_ms: 33, pool_active: 16, error_steps: 11, cache_steps: 4 }
    );
}

#[test]
fn tick_emits_at_most_one_line() {
    let mut b = BossState::seeded(3, &[], std::time::Instant::now());
    b.tick();
    assert!(b.len() <= 1);
    let start = std::time::Instant::now();
    while start.elapsed() < std::time::Duration::from_millis(160) {}
    b.tick();
    assert!(b.len() >= 1 && b.len() <= 2);
}

#[test]
fn tick_after_emits_only_once_the_interval_has_passed() {
    let start = std::time::Instant::now();
    let mut b = BossState::seeded(3, &[], start);
    let later = start + std::time::Duration::from_millis(500);
    b.tick_after(149, 42, later);
    assert_eq!(b.len(), 0);
    assert_eq!(b.last_emit(), start);
    b.tick_after(150, 42, later);
    assert_eq!(b.len(), 1);
    assert_eq!(b.counter(), 1);
    assert_eq!(b.lines()[0].ts_secs, 42);
    assert_eq!(b.last_emit(), later);
}

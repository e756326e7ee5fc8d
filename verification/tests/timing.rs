use kb_mcp::timing::{
    base_timing, instant_to_ms, micros_to_ms, stages_sum_reasonable, BaseTimingMs, StageTimer,
    ToolRequestTimer,
};
use std::time::{Duration, Instant};

fn wait(ms: u64) {
    let start = Instant::now();
    while start.elapsed() < Duration::from_millis(ms) {}
}

#[test]
fn test_tool_request_timer_finish_accounts_for_phases() {
    let mut timer = ToolRequestTimer::start();
    wait(2);
    timer.mark_parse_done();
    wait(2);
    let base = timer.finish(1);
    assert!(base.total >= 4);
    assert!(base.request_parse >= 2);
    assert_eq!(base.routing, 0);
    assert_eq!(base.serialization, 1);
    assert_eq!(
        base.total,
        base.request_parse + base.routing + base.tool_execution + base.serialization
    );
}

#[test]
fn test_stages_sum_reasonable() {
    assert!(stages_sum_reasonable(100, &[30, 40, 20]));
    assert!(!stages_sum_reasonable(10, &[20, 20]));
}

#[test]
fn times_are_rounded_up() {
    assert_eq!(micros_to_ms(0), 0);
    assert_eq!(micros_to_ms(1), 1);
    assert_eq!(micros_to_ms(1000), 1);
    assert_eq!(micros_to_ms(1001), 2);
    assert!(stages_sum_reasonable(10, &[15]));
    assert!(!stages_sum_reasonable(10, &[16]));
    assert!(stages_sum_reasonable(u64::MAX, &[u64::MAX]));
}

#[test]
fn what_is_left_is_the_tool() {
    assert_eq!(
        base_timing(10, 3, 2),
        BaseTimingMs {
            total: 10,
            request_parse: 3,
            routing: 0,
            tool_execution: 5,
            serialization: 2,
        }
    );
    assert_eq!(base_timing(3, 2, 2).tool_execution, 0);
    assert_eq!(BaseTimingMs::default(), base_timing(0, 0, 0));
    assert_eq!(ToolRequestTimer::start().finish(0).request_parse, 0);
}

#[test]
fn clocks_run_forward() {
    let t = StageTimer::start();
    let start = Instant::now();
    wait(3);
    assert!(t.elapsed_ms() >= 3);
    assert!(instant_to_ms(start) >= 3);
}

#[test]
fn parsing_is_part_of_the_request() {
    for _ in 0..100 {
        let mut timer = ToolRequestTimer::start();
        timer.mark_parse_done();
        let t = timer.finish(0);
        assert!(t.request_parse <= t.total);
    }
}

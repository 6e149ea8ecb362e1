use pi_dashboard::control::command_for;
use pi_dashboard::control::Action;
use pi_dashboard::control::Command;
use pi_dashboard::control::DashboardConfig;
use pi_dashboard::control::SpeedLabel;

#[test]
fn default_configuration() {
    let c = DashboardConfig::new();
    assert_eq!(c, DashboardConfig { interval_ms: 1000, log_lines: 10, color_mode: 1 });
}

#[test]
fn keys_and_commands() {
    assert_eq!(command_for('q'), Command::Quit);
    assert_eq!(command_for('+'), Command::SpeedUp);
    assert_eq!(command_for('-'), Command::SlowDown);
    assert_eq!(command_for('.'), Command::MoreLogs);
    assert_eq!(command_for(','), Command::FewerLogs);
    assert_eq!(command_for('c'), Command::Ignore);
    assert_eq!(command_for('Q'), Command::Ignore);
    assert_eq!(command_for(' '), Command::Ignore);
}

#[test]
fn more_log_lines_from_10_to_11_clears_the_screen() {
    let mut c = DashboardConfig::new();
    assert_eq!(c.log_lines, 10);
    assert_eq!(c.on_key('.'), Action::ClearScreen);
    assert_eq!(c.log_lines, 11);
    assert_eq!(c.interval_ms, 1000);
    assert_eq!(c.on_key('x'), Action::Continue);
    assert_eq!(c.log_lines, 11);
}

#[test]
fn fewer_log_lines_stops_at_one() {
    let mut c = DashboardConfig { interval_ms: 1000, log_lines: 2, color_mode: 1 };
    assert_eq!(c.on_key(','), Action::ClearScreen);
    assert_eq!(c.log_lines, 1);
    assert_eq!(c.on_key(','), Action::Continue);
    assert_eq!(c.log_lines, 1);
}

#[test]
fn more_log_lines_stops_at_the_largest_count() {
    let mut c = DashboardConfig { interval_ms: 1000, log_lines: u32::MAX - 1, color_mode: 1 };
    assert_eq!(c.apply(Command::MoreLogs), Action::ClearScreen);
    assert_eq!(c.log_lines, u32::MAX);
    assert_eq!(c.apply(Command::MoreLogs), Action::Continue);
    assert_eq!(c.log_lines, u32::MAX);
}

#[test]
fn speed_up_clamps_at_the_floor() {
    let mut c = DashboardConfig::new();
    let mut seen: Vec<u64> = Vec::new();
    for _ in 0..12 {
        assert_eq!(c.on_key('+'), Action::Continue);
        seen.push(c.interval_ms);
    }
    assert_eq!(seen, vec![900, 800, 700, 600, 500, 400, 300, 200, 100, 100, 100, 100]);
}

#[test]
fn speed_up_from_under_the_floor_goes_to_the_floor() {
    for start in [0u64, 1, 50, 99, 100, 150, 199] {
        let mut c = DashboardConfig { interval_ms: start, log_lines: 10, color_mode: 1 };
        c.apply(Command::SpeedUp);
        assert_eq!(c.interval_ms, 100);
    }
}

#[test]
fn slow_down_clamps_at_the_ceiling() {
    let mut c = DashboardConfig { interval_ms: 4800, log_lines: 10, color_mode: 1 };
    assert_eq!(c.on_key('-'), Action::Continue);
    assert_eq!(c.interval_ms, 4900);
    c.on_key('-');
    assert_eq!(c.interval_ms, 5000);
    c.on_key('-');
    assert_eq!(c.interval_ms, 5000);
    let mut huge = DashboardConfig { interval_ms: u64::MAX, log_lines: 10, color_mode: 1 };
    huge.on_key('-');
    assert_eq!(huge.interval_ms, 5000);
}

#[test]
fn quit_exits_and_changes_nothing() {
    let mut c = DashboardConfig::new();
    assert_eq!(c.on_key('q'), Action::Exit);
    assert_eq!(c, DashboardConfig::new());
}

#[test]
fn other_keys_change_nothing() {
    let mut c = DashboardConfig::new();
    for key in ['a', 'c', 'Q', '=', '\n', '0'] {
        assert_eq!(c.on_key(key), Action::Continue);
        assert_eq!(c, DashboardConfig::new());
    }
}

#[test]
fn speed_label_switches_at_one_second() {
    let mut c = DashboardConfig::new();
    assert_eq!(c.speed_label(), SpeedLabel::Seconds(1));
    c.interval_ms = 999;
    assert_eq!(c.speed_label(), SpeedLabel::Millis(999));
    c.interval_ms = 4900;
    assert_eq!(c.speed_label(), SpeedLabel::Seconds(4));
}

use pi_dashboard::rates::counter_delta;
use pi_dashboard::rates::rate_kbps;
use pi_dashboard::rates::utilization_percent;
use pi_dashboard::rates::PeakTracker;

#[test]
fn utilization_of_worked_example_is_75() {
    assert_eq!(counter_delta(1200, 1000), 200);
    assert_eq!(counter_delta(850, 800), 50);
    assert_eq!(utilization_percent(1200, 850, 1000, 800), 75);
}

#[test]
fn utilization_truncates() {
    // 100 * (3 - 1) / 3 = 66.67
    assert_eq!(utilization_percent(3, 1, 0, 0), 66);
    assert_eq!(utilization_percent(3, 0, 0, 0), 100);
    assert_eq!(utilization_percent(3, 3, 0, 0), 0);
}

#[test]
fn utilization_stays_in_percent_range_for_advancing_counters() {
    let totals: [u64; 5] = [0, 1, 1000, 123_456_789, u64::MAX];
    let idles: [u64; 5] = [0, 1, 999, 123_456, u64::MAX];
    for &t1 in totals.iter() {
        for &t2 in totals.iter() {
            for &i1 in idles.iter() {
                for &i2 in idles.iter() {
                    if t2 >= t1 && i2 >= i1 {
                        assert!(utilization_percent(t2, i2, t1, i1) <= 100);
                    }
                }
            }
        }
    }
}

#[test]
fn utilization_is_zero_after_counter_reset() {
    assert_eq!(utilization_percent(500, 900, 1000, 800), 0);
    assert_eq!(utilization_percent(0, 0, u64::MAX, 0), 0);
    assert_eq!(counter_delta(500, 1000), 0);
}

#[test]
fn utilization_is_zero_when_total_stands_still() {
    assert_eq!(utilization_percent(1000, 900, 1000, 800), 0);
}

#[test]
fn utilization_is_zero_when_idle_outruns_total() {
    assert_eq!(utilization_percent(1010, 900, 1000, 800), 0);
}

#[test]
fn utilization_of_full_range_counters_does_not_overflow() {
    assert_eq!(utilization_percent(u64::MAX, 0, 0, 0), 100);
    assert_eq!(utilization_percent(u64::MAX, u64::MAX / 2, 0, 0), 50);
}

#[test]
fn rate_is_bytes_times_eight_over_1024() {
    assert_eq!(rate_kbps(1024, 0), 8);
    assert_eq!(rate_kbps(127, 0), 0);
    assert_eq!(rate_kbps(128, 0), 1);
    assert_eq!(rate_kbps(1_000_000, 500_000), 3906);
    assert_eq!(rate_kbps(u64::MAX, 0), u64::MAX / 128);
}

#[test]
fn rate_is_zero_after_counter_reset() {
    assert_eq!(rate_kbps(10, 5000), 0);
}

#[test]
fn peak_never_decreases() {
    let mut peak = PeakTracker::new();
    let seen: [u64; 7] = [3, 9, 2, 9, 10, 0, 7];
    let mut before: u64 = 0;
    let mut highest: u64 = 0;
    for &v in seen.iter() {
        let now = peak.observe(v);
        if v > highest {
            highest = v;
        }
        assert!(now >= before);
        assert_eq!(now, highest);
        assert_eq!(peak.peak, now);
        before = now;
    }
    assert_eq!(peak.peak, 10);
}

use pi_dashboard::cpu::read_field;
use pi_dashboard::cpu::total_of;
use pi_dashboard::cpu::CpuSampler;
use pi_dashboard::dma::classify;
use pi_dashboard::dma::Category;
use pi_dashboard::dma::DmaReport;
use pi_dashboard::dma::Tally;
use pi_dashboard::layout::clock_mhz;
use pi_dashboard::layout::mid_column;
use pi_dashboard::layout::tail_start;
use pi_dashboard::layout::visible_log_lines;
use pi_dashboard::meminfo::MemInfo;
use pi_dashboard::net::is_interface_line;
use pi_dashboard::net::parse_counters;
use pi_dashboard::net::read_counters;
use pi_dashboard::net::NetCounters;
use pi_dashboard::net::NetRates;
use pi_dashboard::net::NetSampler;
use pi_dashboard::quantize::CompositePoint;
use pi_dashboard::rates::PeakTracker;

fn owned(fields: &[&str]) -> Vec<Vec<u8>> {
    fields.iter().map(|s| s.as_bytes().to_vec()).collect()
}

#[test]
fn cpu_counters_from_fields() {
    let f = owned(&["cpu", "100", "0", "50", "800", "10", "0", "5", "7", "9"]);
    assert_eq!(total_of(&f), 965);
    assert_eq!(read_field(&f, 4), 800);
    assert_eq!(read_field(&f, 0), 0);
    assert_eq!(read_field(&f, 99), 0);
}

#[test]
fn cpu_total_holds_at_the_largest_number() {
    let f = owned(&["cpu", "18446744073709551615", "1", "2", "3"]);
    assert_eq!(total_of(&f), u64::MAX);
}

#[test]
fn cpu_sampler_reports_interval_average() {
    let mut s = CpuSampler::new();
    let first = owned(&["cpu", "100", "0", "100", "800", "0", "0", "0"]);
    assert_eq!(s.observe_fields(&first), 20);
    assert_eq!(s, CpuSampler { prev_total: 1000, prev_idle: 800, peak: PeakTracker { peak: 20 } });
    let second = owned(&["cpu", "200", "0", "150", "850", "0", "0", "0"]);
    assert_eq!(s.observe_fields(&second), 75);
    assert_eq!(s, CpuSampler { prev_total: 1200, prev_idle: 850, peak: PeakTracker { peak: 75 } });
    let third = owned(&["cpu", "200", "0", "150", "1050", "0", "0", "0"]);
    assert_eq!(s.observe_fields(&third), 0);
    assert_eq!(s, CpuSampler { prev_total: 1400, prev_idle: 1050, peak: PeakTracker { peak: 75 } });
}

#[test]
fn cpu_sampler_survives_bad_fields() {
    let mut s = CpuSampler { prev_total: 10, prev_idle: 5, peak: PeakTracker { peak: 3 } };
    assert_eq!(s.observe_fields(&owned(&["cpu", "1", "2", "3"])), 0);
    assert_eq!(s, CpuSampler { prev_total: 10, prev_idle: 5, peak: PeakTracker { peak: 3 } });
    assert_eq!(s.observe_fields(&owned(&[])), 0);
    assert_eq!(s, CpuSampler { prev_total: 10, prev_idle: 5, peak: PeakTracker { peak: 3 } });
    // five fields only: the missing counters count as zero
    assert_eq!(s.observe_fields(&owned(&["cpu", "30", "x", "", "15"])), 71);
    assert_eq!(s, CpuSampler { prev_total: 45, prev_idle: 15, peak: PeakTracker { peak: 71 } });
}

#[test]
fn cpu_sampler_after_counter_reset() {
    let mut s = CpuSampler { prev_total: 5000, prev_idle: 4000, peak: PeakTracker { peak: 40 } };
    let f = owned(&["cpu", "10", "0", "10", "80", "0", "0", "0"]);
    assert_eq!(s.observe_fields(&f), 0);
    assert_eq!(s, CpuSampler { prev_total: 100, prev_idle: 80, peak: PeakTracker { peak: 40 } });
}

#[test]
fn cpu_sampler_reads_the_counter_table() {
    let table = b"cpu  100 0 100 800 0 0 0 0 0 0\ncpu0 50 0 50 400 0 0 0 0 0 0\nintr 12345\n";
    let mut s = CpuSampler::new();
    assert_eq!(s.observe_table(table), 20);
    assert_eq!(s, CpuSampler { prev_total: 1000, prev_idle: 800, peak: PeakTracker { peak: 20 } });
    let next = b"  cpu \t200  0 150 850 0 0 0 0 0 0  \r\nrest";
    assert_eq!(s.observe_table(next), 75);
    assert_eq!(s, CpuSampler { prev_total: 1200, prev_idle: 850, peak: PeakTracker { peak: 75 } });
}

#[test]
fn cpu_sampler_reads_a_line_with_other_whitespace_at_its_ends() {
    // a no-break space before the label, an em space after the last counter
    let table = "\u{a0}cpu  100 0 100 800 0 0 0 0 0 0\u{2003}\ncpu0 1 2 3 4\n";
    let mut s = CpuSampler::new();
    assert_eq!(s.observe_table(table.as_bytes()), 20);
    assert_eq!(s, CpuSampler { prev_total: 1000, prev_idle: 800, peak: PeakTracker { peak: 20 } });
    let next = "\u{2003} \tcpu\u{a0}200 0 150 850 0 0 0\u{a0}";
    assert_eq!(s.observe_table(next.as_bytes()), 75);
    assert_eq!(s, CpuSampler { prev_total: 1200, prev_idle: 850, peak: PeakTracker { peak: 75 } });
}

#[test]
fn cpu_sampler_ignores_a_blank_first_line() {
    let mut s = CpuSampler { prev_total: 10, prev_idle: 5, peak: PeakTracker { peak: 3 } };
    assert_eq!(s.observe_table(b"   \t \ncpu 1 2 3 4 5 6 7\n"), 0);
    assert_eq!(s, CpuSampler { prev_total: 10, prev_idle: 5, peak: PeakTracker { peak: 3 } });
}

#[test]
fn cpu_sampler_ignores_an_empty_table() {
    let mut s = CpuSampler { prev_total: 10, prev_idle: 5, peak: PeakTracker { peak: 3 } };
    assert_eq!(s.observe_table(b""), 0);
    assert_eq!(s, CpuSampler { prev_total: 10, prev_idle: 5, peak: PeakTracker { peak: 3 } });
    assert_eq!(s.observe_table(b"garbage\n"), 0);
    assert_eq!(s, CpuSampler { prev_total: 10, prev_idle: 5, peak: PeakTracker { peak: 3 } });
}

#[test]
fn cpu_peak_never_decreases() {
    let mut s = CpuSampler::new();
    let tables: [&[u8]; 4] = [
        b"cpu 100 0 0 0 0 0 0",
        b"cpu 100 0 0 100 0 0 0",
        b"cpu 150 0 0 150 0 0 0",
        b"cpu 1 0 0 1 0 0 0",
    ];
    let mut peaks: Vec<u64> = Vec::new();
    for t in tables.iter() {
        s.observe_table(t);
        peaks.push(s.peak.peak);
    }
    assert_eq!(peaks, vec![100, 100, 100, 100]);
}

#[test]
fn memory_table() {
    let table = b"MemTotal:        8000 kB\nMemFree:         3000 kB\nMemAvailable:    5000 kB\nBuffers:          500 kB\nCached:          1500 kB\nCmaTotal:      262144 kB\nCmaFree:       200000 kB\n";
    let info = MemInfo::parse(table);
    assert_eq!(
        info,
        MemInfo {
            mem_total: Some(8000),
            mem_free: Some(3000),
            cached: Some(1500),
            buffers: Some(500),
            cma_total: Some(262144),
            cma_free: Some(200000),
        }
    );
    assert_eq!(info.cache(), 2000);
    assert_eq!(info.ram_point(), CompositePoint { val1: 3000, val2: 5000, total: 8000 });
    assert_eq!(
        info.cma_point(10 * 1024 * 1024),
        CompositePoint { val1: 10240, val2: 62144, total: 262144 }
    );
}

#[test]
fn memory_table_defaults() {
    let info = MemInfo::parse(b"");
    assert_eq!(info, MemInfo::new());
    assert_eq!(info.cache(), 0);
    assert_eq!(info.ram_point(), CompositePoint { val1: 1, val2: 1, total: 1 });
    assert_eq!(info.cma_point(0), CompositePoint { val1: 0, val2: 1, total: 1 });
}

#[test]
fn memory_table_odd_lines() {
    let table = b"MemTotal: lots kB\nMemFree\nCached: 7\nCached: 9\n:Buf:fers 4\nSwapTotal: 5\n";
    let info = MemInfo::parse(table);
    assert_eq!(
        info,
        MemInfo {
            mem_total: Some(0),
            mem_free: None,
            cached: Some(9),
            buffers: Some(4),
            cma_total: None,
            cma_free: None,
        }
    );
    assert_eq!(info.ram_point(), CompositePoint { val1: 0, val2: 13, total: 0 });
}

#[test]
fn memory_sums_hold_at_the_largest_number() {
    let mut info = MemInfo::new();
    info.set(b"Cached", u64::MAX);
    info.set(b"Buffers", 5);
    info.set(b"Unknown", 5);
    assert_eq!(info.cache(), u64::MAX);
    assert_eq!(info.mem_total, None);
}

#[test]
fn buffer_report() {
    let report = b"Dma-buf Objects:\nsize    \tflags   \tmode    \tcount   \texp_name\tino     \tname\n00100000\t00000002\t00080007\t00000002\tvc_sm_cma\t00000123\tfoo\n00200000\t00000002\t00080007\t00000001\tsystem\t00000124\trpicam-vid\n00000400\t00000002\t00080007\t00000001\tsystem\t00000125\tother\n00000400\t00000002\t00080007\t00000001\tsystem\t00000126\tmore\nzz\t00000002\t00080007\t00000001\tsystem\t00000127\tbad\n\nTotal 5 objects, 3147776 bytes\n";
    let r = DmaReport::parse(report);
    assert_eq!(r.active, 3147776);
    assert_eq!(r.gpu_shared, Tally { size: 0x100000, count: 1 });
    assert_eq!(r.camera_app, Tally { size: 0x200000, count: 1 });
    assert_eq!(r.sys_isp, Tally { size: 0x800, count: 2 });
    assert_eq!(r.tally(Category::SysIsp), Tally { size: 0x800, count: 2 });
    assert_eq!(
        r.ranked(),
        vec![
            (Category::CameraApp, Tally { size: 0x200000, count: 1 }),
            (Category::GpuShared, Tally { size: 0x100000, count: 1 }),
            (Category::SysIsp, Tally { size: 0x800, count: 2 }),
        ]
    );
}

#[test]
fn buffer_report_without_rows() {
    let r = DmaReport::parse(b"");
    assert_eq!(r, DmaReport::new());
    assert_eq!(r.active, 0);
    assert_eq!(r.ranked(), Vec::<(Category, Tally)>::new());
}

#[test]
fn buffer_report_ranks_only_what_it_saw() {
    let mut r = DmaReport::new();
    r.read_row(b"10 a b c d e");
    r.read_row(b"20 a b c d rpicam");
    r.read_row(b"20 a b c d");
    r.read_row(b"Total 1 objects, x bytes");
    assert_eq!(r.active, 0);
    assert_eq!(
        r.ranked(),
        vec![
            (Category::CameraApp, Tally { size: 0x20, count: 1 }),
            (Category::SysIsp, Tally { size: 0x10, count: 1 }),
        ]
    );
}

#[test]
fn buffer_rows_are_classified_by_hint() {
    assert_eq!(classify(b"1 vc_sm rpicam"), Category::GpuShared);
    assert_eq!(classify(b"1 rpicam"), Category::CameraApp);
    assert_eq!(classify(b"1 anything"), Category::SysIsp);
    assert_eq!(classify(b""), Category::SysIsp);
}

#[test]
fn interface_table() {
    let table = b"Inter-|   Receive                                                |  Transmit\n face |bytes    packets errs drop fifo frame compressed multicast|bytes    packets errs drop fifo colls carrier compressed\n    lo:    1000      10    0    0    0     0          0         0     1000      10    0    0    0     0       0          0\n  eth0:  123456     789    3    4    0     0          0         0   654321     456    0    0    0     0       0          0\n wlan0:       1       2    3    4    0     0          0         0        5       6    0    0    0     0       0          0\n";
    assert_eq!(parse_counters(table), NetCounters { tx_bytes: 654321, errors: 792 });
}

#[test]
fn interface_table_without_interface() {
    assert_eq!(parse_counters(b""), NetCounters { tx_bytes: 0, errors: 0 });
    assert_eq!(parse_counters(b"lo: 1 2 3 4 5 6 7 8 9 10 11\n"), NetCounters { tx_bytes: 0, errors: 0 });
    // the first matching line decides, even where it is too short
    assert_eq!(
        parse_counters(b"eth0: 1 2 3\nwlan0: 1 2 3 4 5 6 7 8 9 10 11\n"),
        NetCounters { tx_bytes: 0, errors: 0 }
    );
}

#[test]
fn interface_lines() {
    assert!(is_interface_line(b" wlan0: 1"));
    assert!(is_interface_line(b"eth0"));
    assert!(!is_interface_line(b"eth1"));
    assert_eq!(
        read_counters(b"wlan0: 1 2 x 4 5 6 7 8 90 10"),
        NetCounters { tx_bytes: 90, errors: 2 }
    );
    assert_eq!(read_counters(b"wlan0: 1 2 3 4 5 6 7 8 90"), NetCounters { tx_bytes: 0, errors: 0 });
}

#[test]
fn network_sampler() {
    let mut s = NetSampler::new();
    let r = s.observe(NetCounters { tx_bytes: 128_000, errors: 4 });
    assert_eq!(r, NetRates { kbps: 1000, new_errors: 4 });
    assert_eq!(s, NetSampler { prev_tx: 128_000, prev_errors: 4 });
    let r = s.observe(NetCounters { tx_bytes: 128_127, errors: 4 });
    assert_eq!(r, NetRates { kbps: 0, new_errors: 0 });
    let r = s.observe(NetCounters { tx_bytes: 0, errors: 1 });
    assert_eq!(r, NetRates { kbps: 0, new_errors: 0 });
    assert_eq!(s, NetSampler { prev_tx: 0, prev_errors: 1 });
}

#[test]
fn layout_of_the_frame() {
    assert_eq!(mid_column(120), 60);
    assert_eq!(mid_column(80), 55);
    assert_eq!(mid_column(0), 55);
    assert_eq!(mid_column(u16::MAX), 32767);
    assert_eq!(visible_log_lines(11, 40), 11);
    assert_eq!(visible_log_lines(11, 30), 4);
    assert_eq!(visible_log_lines(3, 30), 3);
    assert_eq!(visible_log_lines(11, 26), 0);
    assert_eq!(visible_log_lines(11, 27), 1);
    assert_eq!(visible_log_lines(11, 0), 0);
    assert_eq!(tail_start(200, 120), 80);
    assert_eq!(tail_start(120, 120), 0);
    assert_eq!(tail_start(5, 120), 0);
}

#[test]
fn clock_in_megahertz() {
    assert_eq!(clock_mhz(b"frequency(28)=500000000"), 500);
    assert_eq!(clock_mhz(b"frequency(28)=499999999"), 499);
    assert_eq!(clock_mhz(b"frequency(28)=0"), 0);
    assert_eq!(clock_mhz(b""), 0);
    assert_eq!(clock_mhz(b"no number"), 0);
    assert_eq!(clock_mhz(b"2000000"), 2);
}

use crate::control::action_of;
use crate::control::command_of;
use crate::control::next_config;
use crate::control::Action;
use crate::control::DashboardConfig;
use crate::cpu::aggregate_fields;
use crate::cpu::sampler_after;
use crate::cpu::usage_of;
use crate::cpu::CpuSampler;
use crate::dma::report_of;
use crate::dma::DmaReport;
use crate::history::slide;
use crate::history::HistoryWindow;
use crate::meminfo::cache_of;
use crate::meminfo::cma_point_of;
use crate::meminfo::entries_of;
use crate::meminfo::ram_point_of;
use crate::meminfo::MemInfo;
use crate::net::counters_of;
use crate::net::parse_counters;
use crate::net::NetCounters;
use crate::net::NetRates;
use crate::net::NetSampler;
use crate::quantize::render_simple;
use crate::quantize::render_stacked;
use crate::quantize::frame_view;
use crate::quantize::simple_frame;
use crate::quantize::stacked_frame;
use crate::quantize::CompositePoint;
use crate::quantize::Level;
use crate::rates::delta;
use crate::rates::kilobits;
use crate::rates::PeakTracker;
use crate::text::split_lines;
use vstd::prelude::*;

verus! {

/// The number of points in every history window.
pub const HISTORY_WIDTH: usize = 42;

/// The number of rows of every graph.
pub const GRAPH_HEIGHT: usize = 4;

/// The full scale of the utilization graph, in percent.
pub const CPU_SCALE: u64 = 100;

/// The full scale of the temperature graph, in degrees.
pub const TEMP_SCALE: u64 = 80;

/// Everything the dashboard keeps from one tick to the next.
pub struct Dashboard {
    pub config: DashboardConfig,
    pub cpu: CpuSampler,
    pub net: NetSampler,
    pub cpu_history: HistoryWindow<u64>,
    pub temp_history: HistoryWindow<u64>,
    pub ram_history: HistoryWindow<CompositePoint>,
    pub cma_history: HistoryWindow<CompositePoint>,
}

/// What one tick has measured.
#[derive(Clone, Copy, Debug, PartialEq, Eq)]
pub struct Readings {
    pub cpu_usage: u64,
    pub peak_cpu: u64,
    pub ram: CompositePoint,
    pub cache: u64,
    pub cma: CompositePoint,
    pub dma: DmaReport,
    pub net: NetRates,
}

/// The four graphs of one frame, each as rows of cells, top row first.
pub struct Graphs {
    pub cpu: Vec<Vec<Level>>,
    pub temp: Vec<Vec<Level>>,
    pub ram: Vec<Vec<Level>>,
    pub cma: Vec<Vec<Level>>,
}

/// The point that the two stacked histories are filled with at the start.
pub open spec fn neutral_point() -> CompositePoint {
    CompositePoint { val1: 0, val2: 0, total: 100 }
}

impl Dashboard {
    /// Whether every history has the width that all graphs are drawn with.
    pub open spec fn full(&self) -> bool {
        &&& self.cpu_history@.len() == HISTORY_WIDTH
        &&& self.temp_history@.len() == HISTORY_WIDTH
        &&& self.ram_history@.len() == HISTORY_WIDTH
        &&& self.cma_history@.len() == HISTORY_WIDTH
    }

    /// The state at the start: the default configuration, samplers that
    /// have read nothing, and full windows of neutral points.
    pub fn new() -> (d: Self)
        ensures
            d.config == (DashboardConfig { interval_ms: 1000, log_lines: 10, color_mode: 1 }),
            d.cpu == (CpuSampler { prev_total: 0, prev_idle: 0, peak: PeakTracker { peak: 0 } }),
            d.net == (NetSampler { prev_tx: 0, prev_errors: 0 }),
            d.cpu_history@ == Seq::new(HISTORY_WIDTH as nat, |i: int| 0u64),
            d.temp_history@ == Seq::new(HISTORY_WIDTH as nat, |i: int| 0u64),
            d.ram_history@ == Seq::new(HISTORY_WIDTH as nat, |i: int| neutral_point()),
            d.cma_history@ == Seq::new(HISTORY_WIDTH as nat, |i: int| neutral_point()),
            d.full(),
    {
        let neutral: CompositePoint = CompositePoint { val1: 0, val2: 0, total: 100 };
        Dashboard {
            config: DashboardConfig::new(),
            cpu: CpuSampler::new(),
            net: NetSampler::new(),
            cpu_history: HistoryWindow::new(HISTORY_WIDTH, 0),
            temp_history: HistoryWindow::new(HISTORY_WIDTH, 0),
            ram_history: HistoryWindow::new(HISTORY_WIDTH, neutral),
            cma_history: HistoryWindow::new(HISTORY_WIDTH, neutral),
        }
    }

    /// Takes in the raw texts of one tick and the temperature in whole
    /// degrees, returns what they measure, and pushes one point onto each
    /// history. The configuration is left alone.
    pub fn sample(
        &mut self,
        stat: &[u8],
        temp: u64,
        meminfo: &[u8],
        dma: &[u8],
        netdev: &[u8],
    ) -> (r: Readings)
        ensures
            r.cpu_usage == usage_of(old(self).cpu, aggregate_fields(stat@)),
            r.peak_cpu == final(self).cpu.peak.peak,
            r.ram == ram_point_of(entries_of(split_lines(meminfo@))),
            r.cache == cache_of(entries_of(split_lines(meminfo@))),
            r.dma == report_of(split_lines(dma@)),
            r.cma == cma_point_of(entries_of(split_lines(meminfo@)), r.dma.active),
            r.net.kbps == kilobits(
                delta(counters_of(split_lines(netdev@)).tx_bytes, old(self).net.prev_tx),
            ),
            r.net.new_errors == delta(
                counters_of(split_lines(netdev@)).errors,
                old(self).net.prev_errors,
            ),
            final(self).cpu == sampler_after(old(self).cpu, aggregate_fields(stat@)),
            final(self).net == (NetSampler {
                prev_tx: counters_of(split_lines(netdev@)).tx_bytes,
                prev_errors: counters_of(split_lines(netdev@)).errors,
            }),
            final(self).cpu_history@ == slide(old(self).cpu_history@, r.cpu_usage),
            final(self).temp_history@ == slide(old(self).temp_history@, temp),
            final(self).ram_history@ == slide(old(self).ram_history@, r.ram),
            final(self).cma_history@ == slide(old(self).cma_history@, r.cma),
            final(self).config == old(self).config,
            old(self).full() ==> final(self).full(),
    {
        let cpu_usage: u64 = self.cpu.observe_table(stat);
        self.cpu_history.push(cpu_usage);
        self.temp_history.push(temp);
        let info: MemInfo = MemInfo::parse(meminfo);
        let ram: CompositePoint = info.ram_point();
        self.ram_history.push(ram);
        let report: DmaReport = DmaReport::parse(dma);
        let cma: CompositePoint = info.cma_point(report.active);
        self.cma_history.push(cma);
        let counters: NetCounters = parse_counters(netdev);
        let net: NetRates = self.net.observe(counters);
        Readings {
            cpu_usage,
            peak_cpu: self.cpu.peak.peak,
            ram,
            cache: info.cache(),
            cma,
            dma: report,
            net,
        }
    }

    /// Applies what the wait at the end of a tick brought: the key that was
    /// pressed, or nothing where the wait ran out or something else
    /// happened. At most the configuration changes.
    pub fn handle_input(&mut self, pressed: Option<char>) -> (action: Action)
        ensures
            final(self).config == match pressed {
                Some(key) => next_config(old(self).config, command_of(key)),
                None => old(self).config,
            },
            action == match pressed {
                Some(key) => action_of(old(self).config, command_of(key)),
                None => Action::Continue,
            },
            final(self).cpu == old(self).cpu,
            final(self).net == old(self).net,
            final(self).cpu_history@ == old(self).cpu_history@,
            final(self).temp_history@ == old(self).temp_history@,
            final(self).ram_history@ == old(self).ram_history@,
            final(self).cma_history@ == old(self).cma_history@,
            old(self).full() ==> final(self).full(),
    {
        match pressed {
            Some(key) => self.config.on_key(key),
            None => Action::Continue,
        }
    }

    /// Renders the four histories, each graph as high as the frame asks.
    pub fn graphs(&self) -> (g: Graphs)
        ensures
            frame_view(g.cpu) == simple_frame(self.cpu_history@, CPU_SCALE, GRAPH_HEIGHT as nat),
            frame_view(g.temp) == simple_frame(
                self.temp_history@,
                TEMP_SCALE,
                GRAPH_HEIGHT as nat,
            ),
            frame_view(g.ram) == stacked_frame(self.ram_history@, GRAPH_HEIGHT as nat),
            frame_view(g.cma) == stacked_frame(self.cma_history@, GRAPH_HEIGHT as nat),
    {
        Graphs {
            cpu: render_simple(&self.cpu_history, CPU_SCALE, GRAPH_HEIGHT),
            temp: render_simple(&self.temp_history, TEMP_SCALE, GRAPH_HEIGHT),
            ram: render_stacked(&self.ram_history, GRAPH_HEIGHT),
            cma: render_stacked(&self.cma_history, GRAPH_HEIGHT),
        }
    }
}

} // verus!

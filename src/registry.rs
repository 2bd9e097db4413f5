//! The fixed, ordered tables of metrics that each collector exports.
use vstd::prelude::*;

verus! {

broadcast use vstd::string::group_string_axioms;

/// The exposition type of a metric.
#[derive(Debug, Clone, Copy, PartialEq, Eq, Structural)]
pub enum MetricType {
    Counter,
    Gauge,
}

/// How the text of a command output field becomes a numeric value.
#[derive(Debug, Clone, Copy, PartialEq, Eq, Structural)]
pub enum Decoder {
    /// A plain decimal number.
    Numeric,
    /// A decimal number, with an optional trailing '%'.
    PercentStripped,
    /// A pool health token, mapped to a small integer.
    HealthStatus,
}

/// A metric read from the per-CPU kernel statistics.
#[derive(Debug, Clone)]
pub struct CpuKstatMetric {
    /// The key of the statistic (in nanoseconds).
    pub kstat_key: String,
    /// The exported metric name.
    pub name: String,
    pub mtype: MetricType,
    /// The help text.
    pub desc: String,
}

/// A metric read from one column of the pool inventory command.
#[derive(Debug, Clone)]
pub struct ZpoolListMetric {
    /// The column's name, as requested from the command.
    pub key: String,
    /// The unit, the suffix of the exported name.
    pub units: String,
    /// The help text.
    pub desc: String,
    /// The column of the field in each output row.
    pub index: usize,
    pub decoder: Decoder,
}

/// The model of a [`CpuKstatMetric`]: key, name, type and help text.
pub struct CpuMetricModel {
    pub key: Seq<char>,
    pub name: Seq<char>,
    pub mtype: MetricType,
    pub desc: Seq<char>,
}

/// The model of a [`ZpoolListMetric`].
pub struct ZpoolMetricModel {
    pub key: Seq<char>,
    pub units: Seq<char>,
    pub desc: Seq<char>,
    pub index: nat,
    pub decoder: Decoder,
}

impl View for CpuKstatMetric {
    type V = CpuMetricModel;

    open spec fn view(&self) -> CpuMetricModel {
        CpuMetricModel { key: self.kstat_key@, name: self.name@, mtype: self.mtype, desc: self.desc@ }
    }
}

impl View for ZpoolListMetric {
    type V = ZpoolMetricModel;

    open spec fn view(&self) -> ZpoolMetricModel {
        ZpoolMetricModel {
            key: self.key@,
            units: self.units@,
            desc: self.desc@,
            index: self.index as nat,
            decoder: self.decoder,
        }
    }
}

/// The number of tab-separated fields in each row of the inventory command's
/// output: the pool name, then one column per pool metric.
pub const ZPOOL_FIELDS: usize = 5;

/// How long the inventory command may run, in milliseconds.
pub const ZPOOL_TIMEOUT_MS: u64 = 5000;

pub open spec fn cpu_models(ms: Seq<CpuKstatMetric>) -> Seq<CpuMetricModel> {
    ms.map_values(|m: CpuKstatMetric| m@)
}

pub open spec fn zpool_models(ms: Seq<ZpoolListMetric>) -> Seq<ZpoolMetricModel> {
    ms.map_values(|m: ZpoolListMetric| m@)
}

/// The per-CPU time metrics: idle, kernel, user and dtrace time, each a
/// counter read from the statistic of the same kind in nanoseconds.
pub open spec fn cpu_registry() -> Seq<CpuMetricModel> {
    seq![
        cpu_metric_spec("cpu_nsec_idle", "cpu_idle_seconds_total", "CPU idle time in seconds"),
        cpu_metric_spec("cpu_nsec_kernel", "cpu_kernel_seconds_total", "CPU kernel time in seconds"),
        cpu_metric_spec("cpu_nsec_user", "cpu_user_seconds_total", "CPU user time in seconds"),
        cpu_metric_spec("cpu_nsec_dtrace", "cpu_dtrace_seconds_total", "CPU dtrace time in seconds"),
    ]
}

/// The pool metrics, one per column after the pool name: allocated bytes,
/// fragmentation, health and size.
pub open spec fn zpool_registry() -> Seq<ZpoolMetricModel> {
    seq![
        zpool_metric_spec(
            "allocated",
            "bytes",
            "Amount of storage space used withing the pool",
            1,
            Decoder::Numeric,
        ),
        zpool_metric_spec(
            "fragmentation",
            "percent",
            "Amount of fragmentation in the pool",
            2,
            Decoder::PercentStripped,
        ),
        zpool_metric_spec(
            "health",
            "status",
            "The current health of the pool (0 = ONLINE, 1 = DEGRADED, 2 = FAULTED, 3 = OFFLINE, 4 = REMOVED, 5 = UNAVAIL, -1 = UNKNOWN)",
            3,
            Decoder::HealthStatus,
        ),
        zpool_metric_spec("size", "bytes", "Zpool size in bytes", 4, Decoder::Numeric),
    ]
}

pub open spec fn cpu_metric_spec(key: &str, name: &str, desc: &str) -> CpuMetricModel {
    CpuMetricModel { key: key@, name: name@, mtype: MetricType::Counter, desc: desc@ }
}

fn cpu_metric(key: &str, name: &str, desc: &str) -> (r: CpuKstatMetric)
    ensures
        r@ == cpu_metric_spec(key, name, desc),
{
    CpuKstatMetric {
        kstat_key: key.to_owned(),
        name: name.to_owned(),
        mtype: MetricType::Counter,
        desc: desc.to_owned(),
    }
}

/// The per-CPU time metrics, in output order.
pub fn cpu_util_kstat_metrics() -> (r: Vec<CpuKstatMetric>)
    ensures
        cpu_models(r@) == cpu_registry(),
{
    let mut r: Vec<CpuKstatMetric> = Vec::new();
    r.push(cpu_metric("cpu_nsec_idle", "cpu_idle_seconds_total", "CPU idle time in seconds"));
    r.push(cpu_metric("cpu_nsec_kernel", "cpu_kernel_seconds_total", "CPU kernel time in seconds"));
    r.push(cpu_metric("cpu_nsec_user", "cpu_user_seconds_total", "CPU user time in seconds"));
    r.push(cpu_metric("cpu_nsec_dtrace", "cpu_dtrace_seconds_total", "CPU dtrace time in seconds"));
    assert(cpu_models(r@) =~= cpu_registry());
    r
}

pub open spec fn zpool_metric_spec(
    key: &str,
    units: &str,
    desc: &str,
    index: nat,
    decoder: Decoder,
) -> ZpoolMetricModel {
    ZpoolMetricModel { key: key@, units: units@, desc: desc@, index, decoder }
}

fn zpool_metric(key: &str, units: &str, desc: &str, index: usize, decoder: Decoder) -> (r:
    ZpoolListMetric)
    ensures
        r@ == zpool_metric_spec(key, units, desc, index as nat, decoder),
{
    ZpoolListMetric {
        key: key.to_owned(),
        units: units.to_owned(),
        desc: desc.to_owned(),
        index,
        decoder,
    }
}

/// The pool metrics, in output order.
pub fn zpool_list_metrics() -> (r: Vec<ZpoolListMetric>)
    ensures
        zpool_models(r@) == zpool_registry(),
{
    let mut r: Vec<ZpoolListMetric> = Vec::new();
    r.push(zpool_metric("allocated", "bytes", "Amount of storage space used withing the pool", 1, Decoder::Numeric));
    r.push(zpool_metric("fragmentation", "percent", "Amount of fragmentation in the pool", 2, Decoder::PercentStripped));
    r.push(zpool_metric(
        "health",
        "status",
        "The current health of the pool (0 = ONLINE, 1 = DEGRADED, 2 = FAULTED, 3 = OFFLINE, 4 = REMOVED, 5 = UNAVAIL, -1 = UNKNOWN)",
        3,
        Decoder::HealthStatus,
    ));
    r.push(zpool_metric("size", "bytes", "Zpool size in bytes", 4, Decoder::Numeric));
    assert(zpool_models(r@) =~= zpool_registry());
    r
}

} // verus!

//! Verified core of a host metrics exporter: metric registries, value
//! decoding and rendering of the text exposition format.

pub mod cpu;
pub mod decode;
pub mod error;
pub mod exposition;
pub mod numeral;
pub mod registry;
pub mod text;
pub mod zpool;

pub use error::{CollectionError, ErrorModel};
pub use numeral::seconds_text;
pub use registry::{
    cpu_util_kstat_metrics, zpool_list_metrics, CpuKstatMetric, Decoder, MetricType,
    ZpoolListMetric, ZPOOL_FIELDS, ZPOOL_TIMEOUT_MS,
};
pub use cpu::{collect_gz_cpu_util_metrics, lookup_stat, render_cpu_metrics, StatRecord, StatValue};
pub use exposition::get_metrics;
pub use text::split_text;
pub use decode::{canonical_numeral, decode_field};
pub use zpool::{
    get_zpool_metrics, parse_zpool_output, render_zpool_metrics, zpool_columns, zpool_metrics_from_text,
    CommandOutcome,
};

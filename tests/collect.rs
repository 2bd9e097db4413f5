use illumos_exporter::{
    canonical_numeral, collect_gz_cpu_util_metrics, cpu_util_kstat_metrics, decode_field,
    get_metrics, get_zpool_metrics, lookup_stat, parse_zpool_output, render_cpu_metrics,
    render_zpool_metrics, seconds_text, split_text, zpool_columns, zpool_list_metrics,
    zpool_metrics_from_text, CollectionError, CommandOutcome, Decoder, MetricType, StatRecord,
    StatValue,
};

fn cpu(instance: &str, idle: u64, kernel: u64, user: u64, dtrace: u64) -> StatRecord {
    StatRecord {
        instance: instance.to_string(),
        fields: vec![
            ("cpu_nsec_idle".to_string(), StatValue::UInt64(idle)),
            ("cpu_nsec_kernel".to_string(), StatValue::UInt64(kernel)),
            ("cpu_nsec_user".to_string(), StatValue::UInt64(user)),
            ("cpu_nsec_dtrace".to_string(), StatValue::UInt64(dtrace)),
        ],
    }
}

fn decoded(d: Decoder, raw: &str) -> Option<String> {
    decode_field(d, raw)
}

#[test]
fn percent_decoding_strips_suffix() {
    assert_eq!(decoded(Decoder::PercentStripped, "12.5%"), Some("12.5".to_string()));
    assert_eq!(decoded(Decoder::PercentStripped, "12.5"), Some("12.5".to_string()));
    assert_eq!(decoded(Decoder::PercentStripped, "5%"), Some("5".to_string()));
    assert_eq!(decoded(Decoder::PercentStripped, "%"), None);
    assert_eq!(decoded(Decoder::PercentStripped, "5%%"), None);
}

#[test]
fn status_decoding_maps_tokens() {
    assert_eq!(decoded(Decoder::HealthStatus, "DEGRADED"), Some("1".to_string()));
    assert_eq!(decoded(Decoder::HealthStatus, "WEIRD"), Some("-1".to_string()));
    let tokens = ["ONLINE", "DEGRADED", "FAULTED", "OFFLINE", "REMOVED", "UNAVAIL"];
    for (i, t) in tokens.iter().enumerate() {
        assert_eq!(decoded(Decoder::HealthStatus, t), Some(format!("{}", i)));
    }
    assert_eq!(decoded(Decoder::HealthStatus, ""), Some("-1".to_string()));
    assert_eq!(decoded(Decoder::HealthStatus, "online"), Some("-1".to_string()));
}

#[test]
fn numeric_decoding_is_canonical() {
    assert_eq!(decoded(Decoder::Numeric, "1024"), Some("1024".to_string()));
    assert_eq!(canonical_numeral("007.50"), Some("7.5".to_string()));
    assert_eq!(canonical_numeral("+3"), Some("3".to_string()));
    assert_eq!(canonical_numeral("-2.25"), Some("-2.25".to_string()));
    assert_eq!(canonical_numeral("-0.00"), Some("0".to_string()));
    assert_eq!(canonical_numeral(".5"), Some("0.5".to_string()));
    assert_eq!(canonical_numeral("5."), Some("5".to_string()));
    assert_eq!(canonical_numeral("0"), Some("0".to_string()));
    assert_eq!(canonical_numeral("18446744073709551616"), Some("18446744073709551616".to_string()));
    assert_eq!(canonical_numeral(""), None);
    assert_eq!(canonical_numeral("."), None);
    assert_eq!(canonical_numeral("-"), None);
    assert_eq!(canonical_numeral("1.2.3"), None);
    assert_eq!(canonical_numeral("abc"), None);
    assert_eq!(canonical_numeral("12%"), None);
    assert_eq!(decoded(Decoder::Numeric, "-"), None);
}

#[test]
fn seconds_are_exact_decimals() {
    assert_eq!(seconds_text(0), "0");
    assert_eq!(seconds_text(1), "0.000000001");
    assert_eq!(seconds_text(500_000_000), "0.5");
    assert_eq!(seconds_text(1_500_000_000), "1.5");
    assert_eq!(seconds_text(5_000_000_000), "5");
    assert_eq!(seconds_text(u64::MAX), "18446744073.709551615");
}

#[test]
fn split_keeps_empty_pieces() {
    assert_eq!(split_text("a\tb\t", '\t'), vec!["a", "b", ""]);
    assert_eq!(split_text("", '\t'), vec![""]);
    assert_eq!(split_text("ab", '\t'), vec!["ab"]);
}

#[test]
fn command_timeout_fails() {
    assert_eq!(get_zpool_metrics(CommandOutcome::TimedOut), Err(CollectionError::CommandTimeout));
}

#[test]
fn command_failure_fails() {
    let out = CommandOutcome::Exited {
        success: false,
        code: Some(1),
        stdout: b"tank\t1024\t5%\tONLINE\t4096\n".to_vec(),
    };
    assert_eq!(get_zpool_metrics(out), Err(CollectionError::CommandFailed(Some(1))));
    assert_eq!(get_zpool_metrics(CommandOutcome::NotStarted), Err(CollectionError::CommandFailed(None)));
}

#[test]
fn malformed_row_fails_whole_parse() {
    let text = "tank\t1024\t5%\tONLINE\t4096\ntank2\t1\t2%\tONLINE\n";
    assert_eq!(
        zpool_metrics_from_text(text),
        Err(CollectionError::MalformedRow("tank2\t1\t2%\tONLINE".to_string()))
    );
    assert_eq!(
        parse_zpool_output("a\tb\tc\td"),
        Err(CollectionError::MalformedRow("a\tb\tc\td".to_string()))
    );
}

#[test]
fn malformed_row_takes_precedence_over_decode_error() {
    let text = "tank\tbad\t5%\tONLINE\t4096\nx\n";
    assert_eq!(zpool_metrics_from_text(text), Err(CollectionError::MalformedRow("x".to_string())));
}

#[test]
fn decode_error_names_key_and_value() {
    let text = "tank\t1024\t5%\tONLINE\t4096\nold\t7\t-\tONLINE\t9\n";
    assert_eq!(
        zpool_metrics_from_text(text),
        Err(CollectionError::DecodeError("fragmentation".to_string(), "-".to_string()))
    );
}

#[test]
fn pool_end_to_end() {
    let out = CommandOutcome::Exited {
        success: true,
        code: Some(0),
        stdout: b"tank\t1024\t5%\tONLINE\t4096\n".to_vec(),
    };
    let text = get_zpool_metrics(out).unwrap();
    let expected = "# HELP zpool_allocated_bytes Amount of storage space used withing the pool\n\
# TYPE zpool_allocated_bytes gauge\n\
zpool_allocated_bytes{pool=\"tank\"} 1024\n\
# HELP zpool_fragmentation_percent Amount of fragmentation in the pool\n\
# TYPE zpool_fragmentation_percent gauge\n\
zpool_fragmentation_percent{pool=\"tank\"} 5\n\
# HELP zpool_health_status The current health of the pool (0 = ONLINE, 1 = DEGRADED, 2 = FAULTED, 3 = OFFLINE, 4 = REMOVED, 5 = UNAVAIL, -1 = UNKNOWN)\n\
# TYPE zpool_health_status gauge\n\
zpool_health_status{pool=\"tank\"} 0\n\
# HELP zpool_size_bytes Zpool size in bytes\n\
# TYPE zpool_size_bytes gauge\n\
zpool_size_bytes{pool=\"tank\"} 4096\n";
    assert_eq!(text, expected);
}

#[test]
fn pool_output_has_headers_and_lines_per_row() {
    let text = "tank\t1024\t5%\tONLINE\t4096\nrpool\t10\t0%\tDEGRADED\t20\nz\t1\t1\tWEIRD\t2";
    let out = zpool_metrics_from_text(text).unwrap();
    let headers = out.lines().filter(|l| l.starts_with("# HELP ")).count();
    let types = out.lines().filter(|l| l.starts_with("# TYPE ")).count();
    let data = out.lines().filter(|l| !l.starts_with('#')).count();
    assert_eq!((headers, types, data), (4, 4, 12));
    assert!(out.contains("zpool_health_status{pool=\"rpool\"} 1\n"));
    assert!(out.contains("zpool_health_status{pool=\"z\"} -1\n"));
    assert!(out.contains("zpool_fragmentation_percent{pool=\"z\"} 1\n"));
}

#[test]
fn empty_command_output_gives_headers_only() {
    let out = zpool_metrics_from_text("").unwrap();
    assert_eq!(out.lines().count(), 8);
    assert!(out.lines().all(|l| l.starts_with('#')));
}

#[test]
fn invalid_utf8_is_replaced() {
    let out = CommandOutcome::Exited {
        success: true,
        code: Some(0),
        stdout: b"t\xffk\t1\t2\tONLINE\t3\n".to_vec(),
    };
    let text = get_zpool_metrics(out).unwrap();
    assert!(text.contains("zpool_size_bytes{pool=\"t\u{FFFD}k\"} 3\n"));
}

#[test]
fn render_with_custom_registry() {
    let metrics = vec![zpool_list_metrics()[3].clone()];
    let rows = vec![vec![
        "p".to_string(),
        "1".to_string(),
        "2".to_string(),
        "ONLINE".to_string(),
        "0040".to_string(),
    ]];
    assert_eq!(
        render_zpool_metrics(&metrics, &rows),
        Ok("# HELP zpool_size_bytes Zpool size in bytes\n# TYPE zpool_size_bytes gauge\nzpool_size_bytes{pool=\"p\"} 40\n".to_string())
    );
}

#[test]
fn column_list_follows_registry() {
    assert_eq!(zpool_columns(&zpool_list_metrics()), "name,allocated,fragmentation,health,size");
}

#[test]
fn cpu_end_to_end_idle_line() {
    let text = collect_gz_cpu_util_metrics(&vec![cpu("cpu0", 5_000_000_000, 0, 0, 0)]).unwrap();
    assert!(text.contains("cpu_idle_seconds_total{cpu_id=\"cpu0\"} 5\n"));
    let text = collect_gz_cpu_util_metrics(&vec![cpu("cpu0", 500_000_000, 0, 0, 0)]).unwrap();
    assert!(text.contains("cpu_idle_seconds_total{cpu_id=\"cpu0\"} 0.5\n"));
}

#[test]
fn cpu_output_is_descriptor_then_instance_order() {
    let recs = vec![cpu("0", 1_000_000_000, 2, 3_000_000_000, 0), cpu("1", 10, 20, 30, 40)];
    let text = collect_gz_cpu_util_metrics(&recs).unwrap();
    let expected = "# HELP cpu_idle_seconds_total CPU idle time in seconds\n\
# TYPE cpu_idle_seconds_total counter\n\
cpu_idle_seconds_total{cpu_id=\"0\"} 1\n\
cpu_idle_seconds_total{cpu_id=\"1\"} 0.00000001\n\
# HELP cpu_kernel_seconds_total CPU kernel time in seconds\n\
# TYPE cpu_kernel_seconds_total counter\n\
cpu_kernel_seconds_total{cpu_id=\"0\"} 0.000000002\n\
cpu_kernel_seconds_total{cpu_id=\"1\"} 0.00000002\n\
# HELP cpu_user_seconds_total CPU user time in seconds\n\
# TYPE cpu_user_seconds_total counter\n\
cpu_user_seconds_total{cpu_id=\"0\"} 3\n\
cpu_user_seconds_total{cpu_id=\"1\"} 0.00000003\n\
# HELP cpu_dtrace_seconds_total CPU dtrace time in seconds\n\
# TYPE cpu_dtrace_seconds_total counter\n\
cpu_dtrace_seconds_total{cpu_id=\"0\"} 0\n\
cpu_dtrace_seconds_total{cpu_id=\"1\"} 0.00000004\n";
    assert_eq!(text, expected);
}

#[test]
fn cpu_with_no_instances_gives_headers_only() {
    let text = collect_gz_cpu_util_metrics(&vec![]).unwrap();
    assert_eq!(text.lines().count(), 8);
}

#[test]
fn cpu_missing_stat_fails() {
    let mut rec = cpu("0", 1, 2, 3, 4);
    rec.fields.remove(1);
    assert_eq!(
        collect_gz_cpu_util_metrics(&vec![cpu("1", 1, 1, 1, 1), rec]),
        Err(CollectionError::MissingStat("cpu_nsec_kernel".to_string()))
    );
}

#[test]
fn cpu_type_mismatch_fails() {
    let mut rec = cpu("0", 1, 2, 3, 4);
    rec.fields[3].1 = StatValue::Other;
    assert_eq!(
        collect_gz_cpu_util_metrics(&vec![rec]),
        Err(CollectionError::TypeMismatch("cpu_nsec_dtrace".to_string()))
    );
}

#[test]
fn cpu_render_with_gauge_metric() {
    let mut m = cpu_util_kstat_metrics()[0].clone();
    m.mtype = MetricType::Gauge;
    let text = render_cpu_metrics(&vec![m], &vec![cpu("c", 7, 0, 0, 0)]).unwrap();
    assert_eq!(
        text,
        "# HELP cpu_idle_seconds_total CPU idle time in seconds\n# TYPE cpu_idle_seconds_total gauge\ncpu_idle_seconds_total{cpu_id=\"c\"} 0.000000007\n"
    );
}

#[test]
fn lookup_takes_first_match() {
    let fields = vec![
        ("a".to_string(), StatValue::UInt64(1)),
        ("a".to_string(), StatValue::UInt64(2)),
    ];
    assert_eq!(lookup_stat(&fields, &"a".to_string()), Some(StatValue::UInt64(1)));
    assert_eq!(lookup_stat(&fields, &"b".to_string()), None);
}

#[test]
fn response_is_cpu_then_pool() {
    assert_eq!(get_metrics("a\n".to_string(), "b\n"), "a\nb\n");
}

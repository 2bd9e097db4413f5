//! The per-CPU time collector over kernel statistics.
use vstd::prelude::*;
use crate::error::{result_view, CollectionError, ErrorModel};
use crate::exposition::{append_header, concat_all, header};
use crate::numeral::{append_seconds, seconds_numeral};
use crate::registry::{cpu_models, cpu_registry, cpu_util_kstat_metrics, CpuKstatMetric, CpuMetricModel};

verus! {

broadcast use vstd::string::group_string_axioms;

/// The value of a named kernel statistic, as far as this collector reads it.
#[derive(Debug, Clone, Copy, PartialEq, Eq, Structural)]
pub enum StatValue {
    UInt64(u64),
    /// Any other representation (a signed, 32-bit, character or string value).
    Other,
}

/// One instance of a kernel statistic (one CPU): its label and its named values.
#[derive(Debug, Clone)]
pub struct StatRecord {
    pub instance: String,
    pub fields: Vec<(String, StatValue)>,
}

pub struct StatRecordModel {
    pub instance: Seq<char>,
    pub fields: Seq<(Seq<char>, StatValue)>,
}

impl View for StatRecord {
    type V = StatRecordModel;

    open spec fn view(&self) -> StatRecordModel {
        StatRecordModel {
            instance: self.instance@,
            fields: self.fields@.map_values(|f: (String, StatValue)| (f.0@, f.1)),
        }
    }
}

pub open spec fn record_models(rs: Seq<StatRecord>) -> Seq<StatRecordModel> {
    rs.map_values(|r: StatRecord| r@)
}

/// The value of the first field named `key`, if any.
pub open spec fn lookup(fields: Seq<(Seq<char>, StatValue)>, key: Seq<char>) -> Option<StatValue>
    decreases fields.len(),
{
    if fields.len() == 0 {
        None
    } else if fields[0].0 == key {
        Some(fields[0].1)
    } else {
        lookup(fields.drop_first(), key)
    }
}

/// The nanosecond count that metric `m` reads from record `r`, or why it cannot.
pub open spec fn stat_nanos(m: CpuMetricModel, r: StatRecordModel) -> Result<nat, ErrorModel> {
    match lookup(r.fields, m.key) {
        None => Err(ErrorModel::MissingStat(m.key)),
        Some(StatValue::UInt64(v)) => Ok(v as nat),
        Some(StatValue::Other) => Err(ErrorModel::TypeMismatch(m.key)),
    }
}

/// The data line of metric `m` for record `r`, whose statistic holds `ns`.
pub open spec fn cpu_line(m: CpuMetricModel, r: StatRecordModel, ns: nat) -> Seq<char> {
    m.name + "{cpu_id=\""@ + r.instance + "\"} "@ + seconds_numeral(ns) + "\n"@
}

/// The data lines of metric `m`, one per record in order, or the first failure.
pub open spec fn cpu_body(m: CpuMetricModel, rs: Seq<StatRecordModel>) -> Result<Seq<char>, ErrorModel>
    decreases rs.len(),
{
    if rs.len() == 0 {
        Ok(Seq::empty())
    } else {
        match cpu_body(m, rs.drop_last()) {
            Err(e) => Err(e),
            Ok(b) => match stat_nanos(m, rs.last()) {
                Err(e) => Err(e),
                Ok(ns) => Ok(b + cpu_line(m, rs.last(), ns)),
            },
        }
    }
}

/// The blocks of all metrics in order, each its header then its data lines,
/// or the first failure.
pub open spec fn cpu_exposition(ms: Seq<CpuMetricModel>, rs: Seq<StatRecordModel>) -> Result<Seq<char>, ErrorModel>
    decreases ms.len(),
{
    if ms.len() == 0 {
        Ok(Seq::empty())
    } else {
        match cpu_exposition(ms.drop_last(), rs) {
            Err(e) => Err(e),
            Ok(p) => match cpu_body(ms.last(), rs) {
                Err(e) => Err(e),
                Ok(b) => Ok(p + header(ms.last().name, ms.last().desc, ms.last().mtype) + b),
            },
        }
    }
}

/// The value of the first field of `fields` named `key`.
pub fn lookup_stat(fields: &Vec<(String, StatValue)>, key: &String) -> (r: Option<StatValue>)
    ensures
        r == lookup(fields@.map_values(|f: (String, StatValue)| (f.0@, f.1)), key@),
{
    let ghost fs = fields@.map_values(|f: (String, StatValue)| (f.0@, f.1));
    let mut i: usize = 0;
    assert(fs.skip(0) =~= fs);
    while i < fields.len()
        invariant
            i <= fields@.len(),
            fs == fields@.map_values(|f: (String, StatValue)| (f.0@, f.1)),
            lookup(fs, key@) == lookup(fs.skip(i as int), key@),
        decreases fields.len() - i,
    {
        assert(fs.skip(i as int).drop_first() =~= fs.skip(i as int + 1));
        if fields[i].0 == *key {
            return Some(fields[i].1);
        }
        i = i + 1;
    }
    None
}

/// Renders the kernel-statistic metrics `metrics` over the CPU records
/// `records`: for each metric in order its header, then one line per record in
/// order, with the nanosecond count in seconds. Fails with the first missing
/// or mistyped statistic, in that order.
pub fn render_cpu_metrics(metrics: &Vec<CpuKstatMetric>, records: &Vec<StatRecord>) -> (r: Result<String, CollectionError>)
    ensures
        result_view(r) == cpu_exposition(cpu_models(metrics@), record_models(records@)),
{
    let ghost ms = cpu_models(metrics@);
    let ghost rs = record_models(records@);
    let mut out = String::new();
    let mut i: usize = 0;
    while i < metrics.len()
        invariant
            i <= metrics@.len(),
            ms == cpu_models(metrics@),
            rs == record_models(records@),
            cpu_exposition(ms.take(i as int), rs) == Ok::<Seq<char>, ErrorModel>(out@),
        decreases metrics.len() - i,
    {
        let metric = &metrics[i];
        let mut body = String::new();
        let mut j: usize = 0;
        while j < records.len()
            invariant
                i < metrics@.len(),
                j <= records@.len(),
                *metric == metrics@[i as int],
                ms == cpu_models(metrics@),
                rs == record_models(records@),
                cpu_body(ms[i as int], rs.take(j as int)) == Ok::<Seq<char>, ErrorModel>(body@),
                cpu_exposition(ms.take(i as int), rs) == Ok::<Seq<char>, ErrorModel>(out@),
            decreases records.len() - j,
        {
            let record = &records[j];
            assert(rs.take(j as int + 1).drop_last() =~= rs.take(j as int));
            match lookup_stat(&record.fields, &metric.kstat_key) {
                None => {
                    proof { lemma_cpu_body_fails(ms[i as int], rs, j as int); }
                    proof { lemma_cpu_exposition_fails(ms, rs, i as int); }
                    return Err(CollectionError::MissingStat(metric.kstat_key.clone()));
                },
                Some(StatValue::Other) => {
                    proof { lemma_cpu_body_fails(ms[i as int], rs, j as int); }
                    proof { lemma_cpu_exposition_fails(ms, rs, i as int); }
                    return Err(CollectionError::TypeMismatch(metric.kstat_key.clone()));
                },
                Some(StatValue::UInt64(ns)) => {
                    let ghost before = body@;
                    body.append(metric.name.as_str());
                    body.append("{cpu_id=\"");
                    body.append(record.instance.as_str());
                    body.append("\"} ");
                    append_seconds(&mut body, ns);
                    body.append("\n");
                    assert(body@ =~= before + cpu_line(ms[i as int], rs[j as int], ns as nat));
                },
            }
            j = j + 1;
        }
        assert(rs.take(records@.len() as int) =~= rs);
        assert(ms.take(i as int + 1).drop_last() =~= ms.take(i as int));
        append_header(&mut out, metric.name.as_str(), metric.desc.as_str(), metric.mtype);
        out.append(body.as_str());
        assert(out@ =~= cpu_exposition(ms.take(i as int + 1), rs)->Ok_0);
        i = i + 1;
    }
    assert(ms.take(metrics@.len() as int) =~= ms);
    Ok(out)
}

/// Collects the per-CPU time metrics of the registry over the CPU records
/// `records`.
pub fn collect_gz_cpu_util_metrics(records: &Vec<StatRecord>) -> (r: Result<String, CollectionError>)
    ensures
        result_view(r) == cpu_exposition(cpu_registry(), record_models(records@)),
{
    let metrics = cpu_util_kstat_metrics();
    render_cpu_metrics(&metrics, records)
}

/// Once metric `m` fails on record `j`, its body fails with the same error
/// for every longer prefix of the records.
proof fn lemma_cpu_body_fails(m: CpuMetricModel, rs: Seq<StatRecordModel>, j: int)
    requires
        0 <= j < rs.len(),
        cpu_body(m, rs.take(j)) is Ok,
        stat_nanos(m, rs[j]) is Err,
    ensures
        cpu_body(m, rs) == Err::<Seq<char>, ErrorModel>(stat_nanos(m, rs[j])->Err_0),
    decreases rs.len() - j,
{
    assert(rs.take(j + 1).drop_last() =~= rs.take(j));
    lemma_cpu_body_err_extends(m, rs, j + 1);
}

proof fn lemma_cpu_body_err_extends(m: CpuMetricModel, rs: Seq<StatRecordModel>, k: int)
    requires
        0 <= k <= rs.len(),
        cpu_body(m, rs.take(k)) is Err,
    ensures
        cpu_body(m, rs) == cpu_body(m, rs.take(k)),
    decreases rs.len() - k,
{
    if k < rs.len() {
        assert(rs.take(k + 1).drop_last() =~= rs.take(k));
        lemma_cpu_body_err_extends(m, rs, k + 1);
    } else {
        assert(rs.take(k) =~= rs);
    }
}

/// Once metric `i` fails, the whole exposition fails with the same error.
proof fn lemma_cpu_exposition_fails(ms: Seq<CpuMetricModel>, rs: Seq<StatRecordModel>, i: int)
    requires
        0 <= i < ms.len(),
        cpu_exposition(ms.take(i), rs) is Ok,
        cpu_body(ms[i], rs) is Err,
    ensures
        cpu_exposition(ms, rs) == cpu_body(ms[i], rs),
    decreases ms.len() - i,
{
    assert(ms.take(i + 1).drop_last() =~= ms.take(i));
    lemma_cpu_exposition_err_extends(ms, rs, i + 1);
}

proof fn lemma_cpu_exposition_err_extends(ms: Seq<CpuMetricModel>, rs: Seq<StatRecordModel>, k: int)
    requires
        0 <= k <= ms.len(),
        cpu_exposition(ms.take(k), rs) is Err,
    ensures
        cpu_exposition(ms, rs) == cpu_exposition(ms.take(k), rs),
    decreases ms.len() - k,
{
    if k < ms.len() {
        assert(ms.take(k + 1).drop_last() =~= ms.take(k));
        lemma_cpu_exposition_err_extends(ms, rs, k + 1);
    } else {
        assert(ms.take(k) =~= ms);
    }
}

/// The data line of metric `m` for record `r`, with the value that `r` holds.
pub open spec fn cpu_line_of(m: CpuMetricModel, r: StatRecordModel) -> Seq<char> {
    cpu_line(m, r, stat_nanos(m, r)->Ok_0)
}

/// One block per metric in order, each its header followed by one data line
/// per record in order.
pub open spec fn cpu_blocks(ms: Seq<CpuMetricModel>, rs: Seq<StatRecordModel>) -> Seq<char> {
    concat_all(Seq::new(ms.len(), |i: int| cpu_block(ms[i], rs)))
}

/// The header of metric `m`, followed by one data line per record in order.
pub open spec fn cpu_block(m: CpuMetricModel, rs: Seq<StatRecordModel>) -> Seq<char> {
    header(m.name, m.desc, m.mtype) + concat_all(Seq::new(rs.len(), |j: int| cpu_line_of(m, rs[j])))
}

/// Every record holds every metric's statistic as an unsigned 64-bit integer.
pub open spec fn stats_complete(ms: Seq<CpuMetricModel>, rs: Seq<StatRecordModel>) -> bool {
    forall|i: int, j: int|
        0 <= i < ms.len() && 0 <= j < rs.len() ==> (#[trigger] lookup(rs[j].fields, ms[i].key) matches Some(
            StatValue::UInt64(_),
        ))
}

proof fn lemma_cpu_body_complete(m: CpuMetricModel, rs: Seq<StatRecordModel>)
    requires
        forall|j: int| 0 <= j < rs.len() ==> (#[trigger] lookup(rs[j].fields, m.key) matches Some(
            StatValue::UInt64(_),
        )),
    ensures
        cpu_body(m, rs) == Ok::<Seq<char>, ErrorModel>(
            concat_all(Seq::new(rs.len(), |j: int| cpu_line_of(m, rs[j]))),
        ),
    decreases rs.len(),
{
    if rs.len() > 0 {
        let rs0 = rs.drop_last();
        assert forall|j: int| 0 <= j < rs0.len() implies (#[trigger] lookup(rs0[j].fields, m.key) matches Some(
            StatValue::UInt64(_),
        )) by {
            assert(rs0[j] == rs[j]);
        }
        lemma_cpu_body_complete(m, rs0);
        let s = Seq::new(rs.len(), |j: int| cpu_line_of(m, rs[j]));
        assert(s.drop_last() =~= Seq::new(rs0.len(), |j: int| cpu_line_of(m, rs0[j])));
        assert(lookup(rs[rs.len() - 1].fields, m.key) matches Some(StatValue::UInt64(_)));
    } else {
        assert(Seq::new(0, |j: int| cpu_line_of(m, rs[j])) =~= Seq::<Seq<char>>::empty());
    }
}

/// When every record holds every metric's statistic as an unsigned 64-bit
/// integer, the kernel-statistic collection succeeds, and its output is one
/// header per metric, each followed by exactly one data line per record: in
/// metric order, then record order, with the values in seconds.
pub proof fn lemma_cpu_collection_complete(ms: Seq<CpuMetricModel>, rs: Seq<StatRecordModel>)
    requires
        stats_complete(ms, rs),
    ensures
        cpu_exposition(ms, rs) == Ok::<Seq<char>, ErrorModel>(cpu_blocks(ms, rs)),
    decreases ms.len(),
{
    if ms.len() > 0 {
        let ms0 = ms.drop_last();
        assert forall|i: int, j: int| 0 <= i < ms0.len() && 0 <= j < rs.len() implies (
        #[trigger] lookup(rs[j].fields, ms0[i].key) matches Some(StatValue::UInt64(_))) by {
            assert(ms0[i] == ms[i]);
        }
        lemma_cpu_collection_complete(ms0, rs);
        let m = ms.last();
        assert forall|j: int| 0 <= j < rs.len() implies (#[trigger] lookup(rs[j].fields, m.key) matches Some(
            StatValue::UInt64(_),
        )) by {
            assert(lookup(rs[j].fields, ms[ms.len() - 1].key) matches Some(StatValue::UInt64(_)));
        }
        lemma_cpu_body_complete(m, rs);
        let s = Seq::new(ms.len(), |i: int| cpu_block(ms[i], rs));
        assert(s.drop_last() =~= Seq::new(ms0.len(), |i: int| cpu_block(ms0[i], rs)));
        assert(s.last() == cpu_block(m, rs));
        assert(cpu_blocks(ms, rs) == concat_all(s.drop_last()) + s.last());
        assert(cpu_exposition(ms, rs)->Ok_0 =~= cpu_blocks(ms, rs));
    } else {
        assert(cpu_blocks(ms, rs) =~= Seq::<char>::empty());
    }
}

} // verus!

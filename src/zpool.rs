//! The pool collector over the tab-separated output of the pool inventory
//! command.
use vstd::prelude::*;
use crate::decode::{decode_field, decode_spec};
use crate::error::{result_view, CollectionError, ErrorModel};
use crate::exposition::{append_header, concat_all, header};
use crate::registry::{
    zpool_list_metrics, zpool_models, zpool_registry, MetricType, ZpoolListMetric, ZpoolMetricModel,
    ZPOOL_FIELDS,
};
use crate::text::{split_on, split_text, strings_view};

verus! {

broadcast use vstd::string::group_string_axioms;

/// The lines of `s`: the pieces between newlines, where a final newline ends
/// the last line rather than opening an empty one.
pub open spec fn lines_of(s: Seq<char>) -> Seq<Seq<char>> {
    let p = split_on(s, '\n');
    if p.last().len() == 0 { p.drop_last() } else { p }
}

/// The rows of the lines `ls`, each split at tabs, or the first line that
/// does not have exactly `ZPOOL_FIELDS` fields.
pub open spec fn parse_rows(ls: Seq<Seq<char>>) -> Result<Seq<Seq<Seq<char>>>, ErrorModel>
    decreases ls.len(),
{
    if ls.len() == 0 {
        Ok(Seq::empty())
    } else {
        match parse_rows(ls.drop_last()) {
            Err(e) => Err(e),
            Ok(rows) => if split_on(ls.last(), '\t').len() == ZPOOL_FIELDS {
                Ok(rows.push(split_on(ls.last(), '\t')))
            } else {
                Err(ErrorModel::MalformedRow(ls.last()))
            },
        }
    }
}

pub open spec fn rows_view(rows: Seq<Vec<String>>) -> Seq<Seq<Seq<char>>> {
    rows.map_values(|r: Vec<String>| strings_view(r@))
}

pub open spec fn rows_result_view(r: Result<Vec<Vec<String>>, CollectionError>) -> Result<
    Seq<Seq<Seq<char>>>,
    ErrorModel,
> {
    match r {
        Ok(rows) => Ok(rows_view(rows@)),
        Err(e) => Err(e@),
    }
}

proof fn lemma_parse_rows_err_extends(ls: Seq<Seq<char>>, k: int)
    requires
        0 <= k <= ls.len(),
        parse_rows(ls.take(k)) is Err,
    ensures
        parse_rows(ls) == parse_rows(ls.take(k)),
    decreases ls.len() - k,
{
    if k < ls.len() {
        assert(ls.take(k + 1).drop_last() =~= ls.take(k));
        lemma_parse_rows_err_extends(ls, k + 1);
    } else {
        assert(ls.take(k) =~= ls);
    }
}

/// Splits the command output `text` into rows of tab-separated fields; fails
/// with the first line whose field count is not `ZPOOL_FIELDS`.
pub fn parse_zpool_output(text: &str) -> (r: Result<Vec<Vec<String>>, CollectionError>)
    ensures
        rows_result_view(r) == parse_rows(lines_of(text@)),
{
    let lines = split_text(text, '\n');
    proof {
        crate::text::lemma_split_nonempty(text@, '\n');
    }
    let mut n = lines.len();
    if lines[n - 1].unicode_len() == 0 {
        n = n - 1;
    }
    let ghost ls = lines_of(text@);
    assert(ls =~= strings_view(lines@).take(n as int));
    let mut rows: Vec<Vec<String>> = Vec::new();
    let mut k: usize = 0;
    assert(rows_view(rows@) =~= Seq::<Seq<Seq<char>>>::empty());
    assert(ls.take(0) =~= Seq::<Seq<char>>::empty());
    while k < n
        invariant
            n <= lines@.len(),
            k <= n,
            ls == strings_view(lines@).take(n as int),
            ls.len() == n,
            ls == lines_of(text@),
            parse_rows(ls.take(k as int)) == Ok::<Seq<Seq<Seq<char>>>, ErrorModel>(rows_view(rows@)),
        decreases n - k,
    {
        let line = lines[k].as_str();
        assert(ls.take(k as int + 1).drop_last() =~= ls.take(k as int));
        assert(ls.take(k as int + 1).last() == line@);
        let fields = split_text(line, '\t');
        if fields.len() != ZPOOL_FIELDS {
            proof {
                assert(split_on(line@, '\t').len() == fields@.len());
                assert(parse_rows(ls.take(k as int + 1)) == Err::<Seq<Seq<Seq<char>>>, ErrorModel>(
                    ErrorModel::MalformedRow(line@),
                ));
                lemma_parse_rows_err_extends(ls, k as int + 1);
            }
            let e = CollectionError::MalformedRow(line.to_owned());
            assert(e@ == ErrorModel::MalformedRow(line@));
            return Err(e);
        }
        rows.push(fields);
        assert(rows_view(rows@) =~= parse_rows(ls.take(k as int + 1))->Ok_0);
        k = k + 1;
    }
    assert(ls.take(n as int) =~= ls);
    Ok(rows)
}

/// The exported name of a pool metric.
pub open spec fn zpool_name(m: ZpoolMetricModel) -> Seq<char> {
    "zpool_"@ + m.key + "_"@ + m.units
}

/// The data line of metric `m` for the pool of `row`, whose decoded value is `v`.
pub open spec fn zpool_line(m: ZpoolMetricModel, row: Seq<Seq<char>>, v: Seq<char>) -> Seq<char> {
    zpool_name(m) + "{pool=\""@ + row[0] + "\"} "@ + v + "\n"@
}

/// The decoded value of metric `m` in `row`, or the decode failure.
pub open spec fn field_value(m: ZpoolMetricModel, row: Seq<Seq<char>>) -> Result<Seq<char>, ErrorModel> {
    match decode_spec(m.decoder, row[m.index as int]) {
        Some(v) => Ok(v),
        None => Err(ErrorModel::DecodeError(m.key, row[m.index as int])),
    }
}

/// The data lines of metric `m`, one per row in order, or the first failure.
pub open spec fn zpool_body(m: ZpoolMetricModel, rows: Seq<Seq<Seq<char>>>) -> Result<Seq<char>, ErrorModel>
    decreases rows.len(),
{
    if rows.len() == 0 {
        Ok(Seq::empty())
    } else {
        match zpool_body(m, rows.drop_last()) {
            Err(e) => Err(e),
            Ok(b) => match field_value(m, rows.last()) {
                Err(e) => Err(e),
                Ok(v) => Ok(b + zpool_line(m, rows.last(), v)),
            },
        }
    }
}

/// The blocks of all metrics in order, each its header then its data lines,
/// or the first failure.
pub open spec fn zpool_exposition(ms: Seq<ZpoolMetricModel>, rows: Seq<Seq<Seq<char>>>) -> Result<Seq<char>, ErrorModel>
    decreases ms.len(),
{
    if ms.len() == 0 {
        Ok(Seq::empty())
    } else {
        match zpool_exposition(ms.drop_last(), rows) {
            Err(e) => Err(e),
            Ok(p) => match zpool_body(ms.last(), rows) {
                Err(e) => Err(e),
                Ok(b) => Ok(p + header(zpool_name(ms.last()), ms.last().desc, MetricType::Gauge) + b),
            },
        }
    }
}

/// The output for the command output `text`: a malformed line first, else
/// the rendered metrics.
pub open spec fn zpool_text_exposition(ms: Seq<ZpoolMetricModel>, text: Seq<char>) -> Result<Seq<char>, ErrorModel> {
    match parse_rows(lines_of(text)) {
        Err(e) => Err(e),
        Ok(rows) => zpool_exposition(ms, rows),
    }
}

pub open spec fn indices_in_row(ms: Seq<ZpoolMetricModel>) -> bool {
    forall|i: int| 0 <= i < ms.len() ==> #[trigger] ms[i].index < ZPOOL_FIELDS
}

pub open spec fn rows_well_formed(rows: Seq<Seq<Seq<char>>>) -> bool {
    forall|j: int| 0 <= j < rows.len() ==> #[trigger] rows[j].len() == ZPOOL_FIELDS
}

proof fn lemma_zpool_body_err_extends(m: ZpoolMetricModel, rows: Seq<Seq<Seq<char>>>, k: int)
    requires
        0 <= k <= rows.len(),
        zpool_body(m, rows.take(k)) is Err,
    ensures
        zpool_body(m, rows) == zpool_body(m, rows.take(k)),
    decreases rows.len() - k,
{
    if k < rows.len() {
        assert(rows.take(k + 1).drop_last() =~= rows.take(k));
        lemma_zpool_body_err_extends(m, rows, k + 1);
    } else {
        assert(rows.take(k) =~= rows);
    }
}

proof fn lemma_zpool_exposition_err_extends(ms: Seq<ZpoolMetricModel>, rows: Seq<Seq<Seq<char>>>, k: int)
    requires
        0 <= k <= ms.len(),
        zpool_exposition(ms.take(k), rows) is Err,
    ensures
        zpool_exposition(ms, rows) == zpool_exposition(ms.take(k), rows),
    decreases ms.len() - k,
{
    if k < ms.len() {
        assert(ms.take(k + 1).drop_last() =~= ms.take(k));
        lemma_zpool_exposition_err_extends(ms, rows, k + 1);
    } else {
        assert(ms.take(k) =~= ms);
    }
}

/// Renders the pool metrics `metrics` over the parsed `rows`: for each metric
/// in order its header, then one line per row in order, labelled by the
/// row's first field. Fails with the first field that does not decode.
pub fn render_zpool_metrics(metrics: &Vec<ZpoolListMetric>, rows: &Vec<Vec<String>>) -> (r: Result<String, CollectionError>)
    requires
        indices_in_row(zpool_models(metrics@)),
        rows_well_formed(rows_view(rows@)),
    ensures
        result_view(r) == zpool_exposition(zpool_models(metrics@), rows_view(rows@)),
{
    let ghost ms = zpool_models(metrics@);
    let ghost rs = rows_view(rows@);
    let mut out = String::new();
    let mut i: usize = 0;
    while i < metrics.len()
        invariant
            i <= metrics@.len(),
            ms == zpool_models(metrics@),
            rs == rows_view(rows@),
            indices_in_row(ms),
            rows_well_formed(rs),
            zpool_exposition(ms.take(i as int), rs) == Ok::<Seq<char>, ErrorModel>(out@),
        decreases metrics.len() - i,
    {
        let metric = &metrics[i];
        assert(ms[i as int] == metric@);
        let mut name = String::new();
        name.append("zpool_");
        name.append(metric.key.as_str());
        name.append("_");
        name.append(metric.units.as_str());
        assert(name@ =~= zpool_name(metric@));
        let mut body = String::new();
        let mut j: usize = 0;
        while j < rows.len()
            invariant
                i < metrics@.len(),
                j <= rows@.len(),
                *metric == metrics@[i as int],
                ms == zpool_models(metrics@),
                rs == rows_view(rows@),
                indices_in_row(ms),
                rows_well_formed(rs),
                name@ == zpool_name(metric@),
                zpool_body(ms[i as int], rs.take(j as int)) == Ok::<Seq<char>, ErrorModel>(body@),
                zpool_exposition(ms.take(i as int), rs) == Ok::<Seq<char>, ErrorModel>(out@),
            decreases rows.len() - j,
        {
            let row = &rows[j];
            assert(rs[j as int] == strings_view(row@));
            assert(rs[j as int].len() == ZPOOL_FIELDS);
            assert(ms[i as int].index < ZPOOL_FIELDS);
            assert(rs.take(j as int + 1).drop_last() =~= rs.take(j as int));
            let raw = row[metric.index].as_str();
            match decode_field(metric.decoder, raw) {
                None => {
                    proof {
                        lemma_zpool_body_err_extends(ms[i as int], rs, j as int + 1);
                        assert(ms.take(i as int + 1).drop_last() =~= ms.take(i as int));
                        lemma_zpool_exposition_err_extends(ms, rs, i as int + 1);
                    }
                    return Err(CollectionError::DecodeError(metric.key.clone(), raw.to_owned()));
                },
                Some(v) => {
                    let ghost before = body@;
                    body.append(name.as_str());
                    body.append("{pool=\"");
                    body.append(row[0].as_str());
                    body.append("\"} ");
                    body.append(v.as_str());
                    body.append("\n");
                    assert(body@ =~= before + zpool_line(ms[i as int], rs[j as int], v@));
                },
            }
            j = j + 1;
        }
        assert(rs.take(rows@.len() as int) =~= rs);
        assert(ms.take(i as int + 1).drop_last() =~= ms.take(i as int));
        append_header(&mut out, name.as_str(), metric.desc.as_str(), MetricType::Gauge);
        out.append(body.as_str());
        assert(out@ =~= zpool_exposition(ms.take(i as int + 1), rs)->Ok_0);
        i = i + 1;
    }
    assert(ms.take(metrics@.len() as int) =~= ms);
    Ok(out)
}

/// Renders the registry's pool metrics from the text that the inventory
/// command printed: a malformed line fails first, then a field that does
/// not decode.
pub fn zpool_metrics_from_text(text: &str) -> (r: Result<String, CollectionError>)
    ensures
        result_view(r) == zpool_text_exposition(zpool_registry(), text@),
{
    let metrics = zpool_list_metrics();
    match parse_zpool_output(text) {
        Err(e) => Err(e),
        Ok(rows) => {
            proof {
                assert forall|j: int| 0 <= j < rows_view(rows@).len() implies #[trigger] rows_view(
                    rows@,
                )[j].len() == ZPOOL_FIELDS by {
                    lemma_parsed_rows_well_formed(lines_of(text@), j);
                }
            }
            render_zpool_metrics(&metrics, &rows)
        },
    }
}

proof fn lemma_parsed_rows_well_formed(ls: Seq<Seq<char>>, j: int)
    requires
        parse_rows(ls) is Ok,
        0 <= j < parse_rows(ls)->Ok_0.len(),
    ensures
        parse_rows(ls)->Ok_0[j].len() == ZPOOL_FIELDS,
    decreases ls.len(),
{
    if ls.len() > 0 {
        let prev = parse_rows(ls.drop_last())->Ok_0;
        if j < prev.len() {
            lemma_parsed_rows_well_formed(ls.drop_last(), j);
        }
    }
}

/// The data line of metric `m` for `row`, with the field's decoded value.
pub open spec fn zpool_line_of(m: ZpoolMetricModel, row: Seq<Seq<char>>) -> Seq<char> {
    zpool_line(m, row, field_value(m, row)->Ok_0)
}

/// The header of metric `m`, followed by one data line per row in order.
pub open spec fn zpool_block(m: ZpoolMetricModel, rows: Seq<Seq<Seq<char>>>) -> Seq<char> {
    header(zpool_name(m), m.desc, MetricType::Gauge) + concat_all(
        Seq::new(rows.len(), |j: int| zpool_line_of(m, rows[j])),
    )
}

/// One block per metric in order, each its header followed by one data line
/// per row in order.
pub open spec fn zpool_blocks(ms: Seq<ZpoolMetricModel>, rows: Seq<Seq<Seq<char>>>) -> Seq<char> {
    concat_all(Seq::new(ms.len(), |i: int| zpool_block(ms[i], rows)))
}

/// Every metric's field decodes in every row.
pub open spec fn fields_decode(ms: Seq<ZpoolMetricModel>, rows: Seq<Seq<Seq<char>>>) -> bool {
    forall|i: int, j: int|
        0 <= i < ms.len() && 0 <= j < rows.len() ==> (#[trigger] field_value(ms[i], rows[j])) is Ok
}

proof fn lemma_zpool_body_complete(m: ZpoolMetricModel, rows: Seq<Seq<Seq<char>>>)
    requires
        forall|j: int| 0 <= j < rows.len() ==> (#[trigger] field_value(m, rows[j])) is Ok,
    ensures
        zpool_body(m, rows) == Ok::<Seq<char>, ErrorModel>(
            concat_all(Seq::new(rows.len(), |j: int| zpool_line_of(m, rows[j]))),
        ),
    decreases rows.len(),
{
    if rows.len() > 0 {
        let rows0 = rows.drop_last();
        assert forall|j: int| 0 <= j < rows0.len() implies (#[trigger] field_value(m, rows0[j])) is Ok by {
            assert(rows0[j] == rows[j]);
        }
        lemma_zpool_body_complete(m, rows0);
        let s = Seq::new(rows.len(), |j: int| zpool_line_of(m, rows[j]));
        assert(s.drop_last() =~= Seq::new(rows0.len(), |j: int| zpool_line_of(m, rows0[j])));
        assert(field_value(m, rows[rows.len() - 1]) is Ok);
    } else {
        assert(Seq::new(0, |j: int| zpool_line_of(m, rows[j])) =~= Seq::<Seq<char>>::empty());
    }
}

/// For M metrics and N rows whose fields all decode, the pool collection
/// succeeds, and its output is exactly M headers, each followed by exactly N
/// data lines: in metric order, then row order, each value decoded by its
/// metric's decoder.
pub proof fn lemma_zpool_collection_complete(ms: Seq<ZpoolMetricModel>, rows: Seq<Seq<Seq<char>>>)
    requires
        fields_decode(ms, rows),
    ensures
        zpool_exposition(ms, rows) == Ok::<Seq<char>, ErrorModel>(zpool_blocks(ms, rows)),
    decreases ms.len(),
{
    if ms.len() > 0 {
        let ms0 = ms.drop_last();
        assert forall|i: int, j: int| 0 <= i < ms0.len() && 0 <= j < rows.len() implies (
        #[trigger] field_value(ms0[i], rows[j])) is Ok by {
            assert(ms0[i] == ms[i]);
        }
        lemma_zpool_collection_complete(ms0, rows);
        let m = ms.last();
        assert forall|j: int| 0 <= j < rows.len() implies (#[trigger] field_value(m, rows[j])) is Ok by {
            assert(field_value(ms[ms.len() - 1], rows[j]) is Ok);
        }
        lemma_zpool_body_complete(m, rows);
        let s = Seq::new(ms.len(), |i: int| zpool_block(ms[i], rows));
        assert(s.drop_last() =~= Seq::new(ms0.len(), |i: int| zpool_block(ms0[i], rows)));
        assert(s.last() == zpool_block(m, rows));
        assert(zpool_blocks(ms, rows) == concat_all(s.drop_last()) + s.last());
        assert(zpool_exposition(ms, rows)->Ok_0 =~= zpool_blocks(ms, rows));
    } else {
        assert(zpool_blocks(ms, rows) =~= Seq::<char>::empty());
    }
}

/// What became of a run of the inventory command.
pub enum CommandOutcome {
    /// The command could not be started.
    NotStarted,
    /// The command did not finish within `ZPOOL_TIMEOUT_MS`.
    TimedOut,
    /// The command finished: whether it succeeded, its exit code if it had
    /// one, and what it printed.
    Exited { success: bool, code: Option<i32>, stdout: Vec<u8> },
}

/// A name for the text that `String::from_utf8_lossy` makes of a byte string.
pub uninterp spec fn lossy_text(b: Seq<u8>) -> Seq<char>;

/// Relies on `String::from_utf8_lossy`: the bytes read as UTF-8, each invalid
/// sequence replaced by U+FFFD; valid UTF-8 comes back as it is.
#[verifier::external_body]
fn text_from_bytes(b: &Vec<u8>) -> (r: String)
    ensures
        r@ == lossy_text(b@),
        vstd::utf8::valid_utf8(b@) ==> r@ == vstd::utf8::decode_utf8(b@),
{
    String::from_utf8_lossy(b.as_slice()).into_owned()
}

/// The pool collector's output for a run of the inventory command.
pub open spec fn zpool_outcome_exposition(o: CommandOutcome) -> Result<Seq<char>, ErrorModel> {
    match o {
        CommandOutcome::NotStarted => Err(ErrorModel::CommandFailed(None)),
        CommandOutcome::TimedOut => Err(ErrorModel::CommandTimeout),
        CommandOutcome::Exited { success, code, stdout } => if success {
            zpool_text_exposition(zpool_registry(), lossy_text(stdout@))
        } else {
            Err(ErrorModel::CommandFailed(code))
        },
    }
}

/// Collects the pool metrics from a run of the inventory command: a timeout
/// or an unsuccessful run fails, else its output is read as text (invalid
/// UTF-8 replaced) and rendered.
pub fn get_zpool_metrics(outcome: CommandOutcome) -> (r: Result<String, CollectionError>)
    ensures
        result_view(r) == zpool_outcome_exposition(outcome),
{
    match outcome {
        CommandOutcome::NotStarted => Err(CollectionError::CommandFailed(None)),
        CommandOutcome::TimedOut => Err(CollectionError::CommandTimeout),
        CommandOutcome::Exited { success, code, stdout } => {
            if !success {
                return Err(CollectionError::CommandFailed(code));
            }
            let text = text_from_bytes(&stdout);
            zpool_metrics_from_text(text.as_str())
        },
    }
}

/// The inventory command's column list: the pool name, then each metric's
/// key, separated by commas.
pub open spec fn column_list(ms: Seq<ZpoolMetricModel>) -> Seq<char>
    decreases ms.len(),
{
    if ms.len() == 0 {
        "name"@
    } else {
        column_list(ms.drop_last()) + ","@ + ms.last().key
    }
}

/// The column list to ask the inventory command for, for `metrics`.
pub fn zpool_columns(metrics: &Vec<ZpoolListMetric>) -> (r: String)
    ensures
        r@ == column_list(zpool_models(metrics@)),
{
    let ghost ms = zpool_models(metrics@);
    let mut r = String::new();
    r.append("name");
    let mut i: usize = 0;
    while i < metrics.len()
        invariant
            i <= metrics@.len(),
            ms == zpool_models(metrics@),
            r@ == column_list(ms.take(i as int)),
        decreases metrics.len() - i,
    {
        assert(ms.take(i as int + 1).drop_last() =~= ms.take(i as int));
        r.append(",");
        r.append(metrics[i].key.as_str());
        i = i + 1;
    }
    assert(ms.take(metrics@.len() as int) =~= ms);
    r
}

} // verus!

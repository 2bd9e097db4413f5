//! The text exposition format: metric headers, and the concatenation of
//! collector outputs into one response body.
use vstd::prelude::*;
use crate::registry::MetricType;

verus! {

broadcast use vstd::string::group_string_axioms;

/// The pieces of `s`, joined in order.
pub open spec fn concat_all(s: Seq<Seq<char>>) -> Seq<char>
    decreases s.len(),
{
    if s.len() == 0 {
        Seq::empty()
    } else {
        concat_all(s.drop_last()) + s.last()
    }
}

pub open spec fn type_word(t: MetricType) -> Seq<char> {
    match t {
        MetricType::Counter => "counter"@,
        MetricType::Gauge => "gauge"@,
    }
}

/// The HELP and TYPE lines that open a metric's block.
pub open spec fn header(name: Seq<char>, desc: Seq<char>, t: MetricType) -> Seq<char> {
    "# HELP "@ + name + " "@ + desc + "\n# TYPE "@ + name + " "@ + type_word(t) + "\n"@
}

/// Appends the HELP and TYPE lines of a metric to `out`.
pub fn append_header(out: &mut String, name: &str, desc: &str, t: MetricType)
    ensures
        final(out)@ == old(out)@ + header(name@, desc@, t),
{
    out.append("# HELP ");
    out.append(name);
    out.append(" ");
    out.append(desc);
    out.append("\n# TYPE ");
    out.append(name);
    out.append(" ");
    match t {
        MetricType::Counter => out.append("counter"),
        MetricType::Gauge => out.append("gauge"),
    }
    out.append("\n");
    assert(final(out)@ =~= old(out)@ + header(name@, desc@, t));
}

/// The response body: the kernel-statistic output, then the pool output,
/// verbatim.
pub fn get_metrics(cpu_metrics: String, zpool_metrics: &str) -> (r: String)
    ensures
        r@ == cpu_metrics@ + zpool_metrics@,
{
    cpu_metrics.concat(zpool_metrics)
}

} // verus!

//! Rendering of the registry into the text exposition format: one sample
//! per line, each family preceded by its `# HELP` and `# TYPE` lines,
//! families in metric-name order.

use vstd::prelude::*;
use vstd::string::StringExecFns;

use crate::metrics::BUCKET_COUNT;
use crate::metrics::CounterEntry;
use crate::metrics::HistEntry;
use crate::metrics::Metrics;
use crate::metrics::bucket_bound;
use crate::metrics::bucket_bound_nanos;
use crate::text::append_escaped;
use crate::text::append_seconds;
use crate::text::append_u64;
use crate::text::dec_text;
use crate::text::escaped;
use crate::text::seconds_text;

verus! {

/// The up-gauge family: help, type, and its single sample.
pub open spec fn gauge_text(up: u64) -> Seq<char> {
    "# HELP tauri_app_up Tauri app up\n# TYPE tauri_app_up gauge\ntauri_app_up "@ + dec_text(
        up as nat,
    ) + "\n"@
}

/// One cumulative bucket line of a histogram entry.
pub open spec fn bucket_line_text(e: HistEntry, i: int) -> Seq<char> {
    "tauri_command_duration_seconds_bucket{command=\""@ + escaped(e.op@) + "\",le=\""@
        + seconds_text(bucket_bound(i)) + "\"} "@ + dec_text(e.buckets@[i] as nat) + "\n"@
}

/// The first `k` bucket lines of a histogram entry, in boundary order.
pub open spec fn bucket_lines_text(e: HistEntry, k: int) -> Seq<char>
    decreases k,
{
    if k <= 0 {
        Seq::<char>::empty()
    } else {
        bucket_lines_text(e, k - 1) + bucket_line_text(e, k - 1)
    }
}

/// All samples of one histogram entry: the bucket ladder, the +Inf bucket,
/// the sum in seconds, and the observation count.
pub open spec fn hist_entry_text(e: HistEntry) -> Seq<char> {
    bucket_lines_text(e, BUCKET_COUNT as int)
        + "tauri_command_duration_seconds_bucket{command=\""@ + escaped(e.op@)
        + "\",le=\"+Inf\"} "@ + dec_text(e.count as nat) + "\n"@
        + "tauri_command_duration_seconds_sum{command=\""@ + escaped(e.op@) + "\"} "@
        + seconds_text(e.sum as nat) + "\n"@ + "tauri_command_duration_seconds_count{command=\""@
        + escaped(e.op@) + "\"} "@ + dec_text(e.count as nat) + "\n"@
}

/// The samples of the histogram entries, in entry order.
pub open spec fn hist_entries_text(entries: Seq<HistEntry>) -> Seq<char>
    decreases entries.len(),
{
    if entries.len() == 0 {
        Seq::<char>::empty()
    } else {
        hist_entries_text(entries.drop_last()) + hist_entry_text(entries.last())
    }
}

/// The whole histogram family.
pub open spec fn hist_family_text(entries: Seq<HistEntry>) -> Seq<char> {
    "# HELP tauri_command_duration_seconds Tauri command duration\n# TYPE tauri_command_duration_seconds histogram\n"@
        + hist_entries_text(entries)
}

/// One counter sample line.
pub open spec fn counter_line_text(e: CounterEntry) -> Seq<char> {
    "tauri_command_total{command=\""@ + escaped(e.op@) + "\",status=\""@ + escaped(e.outcome@)
        + "\"} "@ + dec_text(e.count as nat) + "\n"@
}

/// The samples of the counter entries, in entry order.
pub open spec fn counter_entries_text(entries: Seq<CounterEntry>) -> Seq<char>
    decreases entries.len(),
{
    if entries.len() == 0 {
        Seq::<char>::empty()
    } else {
        counter_entries_text(entries.drop_last()) + counter_line_text(entries.last())
    }
}

/// The whole counter family.
pub open spec fn counter_family_text(entries: Seq<CounterEntry>) -> Seq<char> {
    "# HELP tauri_command_total Tauri command total\n# TYPE tauri_command_total counter\n"@
        + counter_entries_text(entries)
}

/// The whole exposition document, families in metric-name order.
pub open spec fn exposition_text(m: Metrics) -> Seq<char> {
    gauge_text(m.up) + hist_family_text(m.hists@) + counter_family_text(m.counters@)
}

/// Appends every sample of one histogram entry.
#[verifier::rlimit(100)]
#[verifier::loop_isolation(false)]
fn append_hist_entry(out: &mut String, e: &HistEntry)
    requires
        e.buckets@.len() == BUCKET_COUNT,
    ensures
        final(out)@ == old(out)@ + hist_entry_text(*e),
{
    let mut i: usize = 0;
    proof {
        assert(out@ + bucket_lines_text(*e, 0) =~= out@);
    }
    while i < BUCKET_COUNT
        invariant
            i <= BUCKET_COUNT,
            out@ == old(out)@ + bucket_lines_text(*e, i as int),
        decreases BUCKET_COUNT - i,
    {
        out.append("tauri_command_duration_seconds_bucket{command=\"");
        append_escaped(out, e.op.as_str());
        out.append("\",le=\"");
        append_seconds(out, bucket_bound_nanos(i));
        out.append("\"} ");
        append_u64(out, e.buckets[i]);
        out.append("\n");
        proof {
            assert(out@ =~= old(out)@ + bucket_lines_text(*e, i as int + 1));
        }
        i += 1;
    }
    out.append("tauri_command_duration_seconds_bucket{command=\"");
    append_escaped(out, e.op.as_str());
    out.append("\",le=\"+Inf\"} ");
    append_u64(out, e.count);
    out.append("\n");
    out.append("tauri_command_duration_seconds_sum{command=\"");
    append_escaped(out, e.op.as_str());
    out.append("\"} ");
    append_seconds(out, e.sum);
    out.append("\n");
    out.append("tauri_command_duration_seconds_count{command=\"");
    append_escaped(out, e.op.as_str());
    out.append("\"} ");
    append_u64(out, e.count);
    out.append("\n");
    proof {
        assert(out@ =~= old(out)@ + hist_entry_text(*e));
    }
}

/// Appends one counter sample line.
fn append_counter_entry(out: &mut String, e: &CounterEntry)
    ensures
        final(out)@ == old(out)@ + counter_line_text(*e),
{
    out.append("tauri_command_total{command=\"");
    append_escaped(out, e.op.as_str());
    out.append("\",status=\"");
    append_escaped(out, e.outcome.as_str());
    out.append("\"} ");
    append_u64(out, e.count);
    out.append("\n");
    proof {
        assert(out@ =~= old(out)@ + counter_line_text(*e));
    }
}

/// Renders the registry's current state into the text exposition format.
/// The rendering is a pure function of the registry's state, and it
/// always succeeds.
#[verifier::rlimit(100)]
#[verifier::loop_isolation(false)]
pub fn render(m: &Metrics) -> (r: String)
    requires
        m.wf(),
    ensures
        r@ == exposition_text(*m),
{
    let mut out = String::new();
    out.append("# HELP tauri_app_up Tauri app up\n# TYPE tauri_app_up gauge\ntauri_app_up ");
    append_u64(&mut out, m.up);
    out.append("\n");
    proof {
        assert(out@ =~= gauge_text(m.up));
    }
    out.append(
        "# HELP tauri_command_duration_seconds Tauri command duration\n# TYPE tauri_command_duration_seconds histogram\n",
    );
    let mut j: usize = 0;
    proof {
        assert(m.hists@.take(0) =~= Seq::<HistEntry>::empty());
        assert(out@ =~= gauge_text(m.up) + hist_family_text(m.hists@.take(0)));
    }
    while j < m.hists.len()
        invariant
            j <= m.hists@.len(),
            out@ == gauge_text(m.up) + hist_family_text(m.hists@.take(j as int)),
        decreases m.hists@.len() - j,
    {
        append_hist_entry(&mut out, &m.hists[j]);
        proof {
            assert(m.hists@.take(j as int + 1).drop_last() =~= m.hists@.take(j as int));
            assert(m.hists@.take(j as int + 1).last() == m.hists@[j as int]);
            assert(out@ =~= gauge_text(m.up) + hist_family_text(m.hists@.take(j as int + 1)));
        }
        j += 1;
    }
    proof {
        assert(m.hists@.take(m.hists@.len() as int) =~= m.hists@);
    }
    out.append(
        "# HELP tauri_command_total Tauri command total\n# TYPE tauri_command_total counter\n",
    );
    let mut k: usize = 0;
    proof {
        assert(m.counters@.take(0) =~= Seq::<CounterEntry>::empty());
        assert(out@ =~= gauge_text(m.up) + hist_family_text(m.hists@) + counter_family_text(
            m.counters@.take(0),
        ));
    }
    while k < m.counters.len()
        invariant
            k <= m.counters@.len(),
            out@ == gauge_text(m.up) + hist_family_text(m.hists@) + counter_family_text(
                m.counters@.take(k as int),
            ),
        decreases m.counters@.len() - k,
    {
        append_counter_entry(&mut out, &m.counters[k]);
        proof {
            assert(m.counters@.take(k as int + 1).drop_last() =~= m.counters@.take(k as int));
            assert(m.counters@.take(k as int + 1).last() == m.counters@[k as int]);
            assert(out@ =~= gauge_text(m.up) + hist_family_text(m.hists@) + counter_family_text(
                m.counters@.take(k as int + 1),
            ));
        }
        k += 1;
    }
    proof {
        assert(m.counters@.take(m.counters@.len() as int) =~= m.counters@);
        assert(out@ =~= exposition_text(*m));
    }
    out
}

} // verus!

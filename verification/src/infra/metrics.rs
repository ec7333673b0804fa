//! Agent metrics in Prometheus text exposition format.
//!
//! Counters wrap around at 2^64, as the atomic counters they model do.
use vstd::prelude::*;
use crate::text::{decimal, u64_to_string};

verus! {

/// Agent metrics collector.
#[derive(Debug)]
pub struct Metrics {
    pub turns_total: u64,
    pub tool_calls_total: u64,
    pub errors_total: u64,
    pub compacts_total: u64,
    pub input_tokens_total: u64,
    pub output_tokens_total: u64,
    pub active_runs: u64,
}

/// Point-in-time metrics snapshot.
#[derive(Clone, Copy, Debug, PartialEq, Eq, Structural)]
pub struct MetricsSnapshot {
    pub turns_total: u64,
    pub tool_calls_total: u64,
    pub errors_total: u64,
    pub compacts_total: u64,
    pub input_tokens_total: u64,
    pub output_tokens_total: u64,
    pub active_runs: u64,
}

/// `(a + b) mod 2^64`.
pub open spec fn wadd(a: u64, b: u64) -> u64 {
    ((a as int + b as int) % 0x1_0000_0000_0000_0000) as u64
}

/// `(a - b) mod 2^64`.
pub open spec fn wsub(a: u64, b: u64) -> u64 {
    ((a as int - b as int) % 0x1_0000_0000_0000_0000) as u64
}

/// Ending a run undoes starting one: the active-run gauge returns to its
/// value, whatever it was (the counters wrap as atomics do); and starting
/// a run after ending one restores it too.
pub proof fn lemma_run_end_undoes_start(active: u64)
    ensures
        wsub(wadd(active, 1), 1) == active,
        wadd(wsub(active, 1), 1) == active,
{
}

impl Metrics {
    pub open spec fn spec_snapshot(&self) -> MetricsSnapshot {
        MetricsSnapshot {
            turns_total: self.turns_total,
            tool_calls_total: self.tool_calls_total,
            errors_total: self.errors_total,
            compacts_total: self.compacts_total,
            input_tokens_total: self.input_tokens_total,
            output_tokens_total: self.output_tokens_total,
            active_runs: self.active_runs,
        }
    }

    /// All counters at zero.
    pub fn new() -> (m: Self)
        ensures
            m.spec_snapshot() == (MetricsSnapshot {
                turns_total: 0,
                tool_calls_total: 0,
                errors_total: 0,
                compacts_total: 0,
                input_tokens_total: 0,
                output_tokens_total: 0,
                active_runs: 0,
            }),
    {
        Metrics {
            turns_total: 0,
            tool_calls_total: 0,
            errors_total: 0,
            compacts_total: 0,
            input_tokens_total: 0,
            output_tokens_total: 0,
            active_runs: 0,
        }
    }

    pub fn record_turn(&mut self)
        ensures
            final(self).spec_snapshot() == (MetricsSnapshot { turns_total: wadd(old(self).turns_total, 1), ..old(self).spec_snapshot() }),
    {
        self.turns_total = self.turns_total.wrapping_add(1);
    }

    pub fn record_tool_call(&mut self)
        ensures
            final(self).spec_snapshot() == (MetricsSnapshot { tool_calls_total: wadd(old(self).tool_calls_total, 1), ..old(self).spec_snapshot() }),
    {
        self.tool_calls_total = self.tool_calls_total.wrapping_add(1);
    }

    pub fn record_error(&mut self)
        ensures
            final(self).spec_snapshot() == (MetricsSnapshot { errors_total: wadd(old(self).errors_total, 1), ..old(self).spec_snapshot() }),
    {
        self.errors_total = self.errors_total.wrapping_add(1);
    }

    pub fn record_compact(&mut self)
        ensures
            final(self).spec_snapshot() == (MetricsSnapshot { compacts_total: wadd(old(self).compacts_total, 1), ..old(self).spec_snapshot() }),
    {
        self.compacts_total = self.compacts_total.wrapping_add(1);
    }

    pub fn record_tokens(&mut self, input: u64, output: u64)
        ensures
            final(self).spec_snapshot() == (MetricsSnapshot {
                input_tokens_total: wadd(old(self).input_tokens_total, input),
                output_tokens_total: wadd(old(self).output_tokens_total, output),
                ..old(self).spec_snapshot()
            }),
    {
        self.input_tokens_total = self.input_tokens_total.wrapping_add(input);
        self.output_tokens_total = self.output_tokens_total.wrapping_add(output);
    }

    pub fn run_started(&mut self)
        ensures
            final(self).spec_snapshot() == (MetricsSnapshot { active_runs: wadd(old(self).active_runs, 1), ..old(self).spec_snapshot() }),
    {
        self.active_runs = self.active_runs.wrapping_add(1);
    }

    pub fn run_ended(&mut self)
        ensures
            final(self).spec_snapshot() == (MetricsSnapshot { active_runs: wsub(old(self).active_runs, 1), ..old(self).spec_snapshot() }),
    {
        self.active_runs = self.active_runs.wrapping_sub(1);
    }

    /// Current values.
    pub fn snapshot(&self) -> (s: MetricsSnapshot)
        ensures
            s == self.spec_snapshot(),
    {
        MetricsSnapshot {
            turns_total: self.turns_total,
            tool_calls_total: self.tool_calls_total,
            errors_total: self.errors_total,
            compacts_total: self.compacts_total,
            input_tokens_total: self.input_tokens_total,
            output_tokens_total: self.output_tokens_total,
            active_runs: self.active_runs,
        }
    }

    /// Prometheus text exposition of all metrics.
    pub fn to_prometheus(&self) -> (r: String)
        ensures
            r@ == prometheus_text(self.spec_snapshot()),
    {
        let s = self.snapshot();
        let mut out = String::new();
        push_metric(&mut out, "agent_turns_total", "Total agent turns processed", "counter", s.turns_total);
        push_metric(&mut out, "agent_tool_calls_total", "Total tool invocations", "counter", s.tool_calls_total);
        push_metric(&mut out, "agent_errors_total", "Total errors encountered", "counter", s.errors_total);
        push_metric(&mut out, "agent_compacts_total", "Context compactions performed", "counter", s.compacts_total);
        push_metric(&mut out, "agent_input_tokens_total", "Input tokens consumed", "counter", s.input_tokens_total);
        push_metric(&mut out, "agent_output_tokens_total", "Output tokens generated", "counter", s.output_tokens_total);
        push_metric(&mut out, "agent_active_runs", "Currently executing runs", "gauge", s.active_runs);
        out
    }
}

/// One metric block: HELP line, TYPE line and value line.
pub open spec fn metric_block(name: Seq<char>, help: Seq<char>, kind: Seq<char>, v: u64) -> Seq<char> {
    "# HELP "@ + name + seq![' '] + help + seq!['\n'] + "# TYPE "@ + name + seq![' '] + kind + seq!['\n']
        + name + seq![' '] + decimal(v as nat) + seq!['\n']
}

pub open spec fn prometheus_text(s: MetricsSnapshot) -> Seq<char> {
    metric_block("agent_turns_total"@, "Total agent turns processed"@, "counter"@, s.turns_total)
        + metric_block("agent_tool_calls_total"@, "Total tool invocations"@, "counter"@, s.tool_calls_total)
        + metric_block("agent_errors_total"@, "Total errors encountered"@, "counter"@, s.errors_total)
        + metric_block("agent_compacts_total"@, "Context compactions performed"@, "counter"@, s.compacts_total)
        + metric_block("agent_input_tokens_total"@, "Input tokens consumed"@, "counter"@, s.input_tokens_total)
        + metric_block("agent_output_tokens_total"@, "Output tokens generated"@, "counter"@, s.output_tokens_total)
        + metric_block("agent_active_runs"@, "Currently executing runs"@, "gauge"@, s.active_runs)
}

fn push_metric(out: &mut String, name: &str, help: &str, kind: &str, v: u64)
    ensures
        final(out)@ == old(out)@ + metric_block(name@, help@, kind@, v),
{
    out.append("# HELP ");
    out.append(name);
    out.append(" ");
    out.append(help);
    out.append("\n");
    out.append("# TYPE ");
    out.append(name);
    out.append(" ");
    out.append(kind);
    out.append("\n");
    out.append(name);
    out.append(" ");
    out.append(u64_to_string(v).as_str());
    out.append("\n");
    proof {
        reveal_strlit(" ");
        reveal_strlit("\n");
        assert(out@ =~= old(out)@ + metric_block(name@, help@, kind@, v));
    }
}

}

//! Traces captured by the tracing evaluators.
use crate::shell::interval::ShellIntervalTrace;
use crate::vm::choice::Choice;
use vstd::prelude::*;

verus! {

/// Summary of one shell trace for render metadata.
#[derive(Clone, Copy, Debug, PartialEq, Eq, Structural)]
pub struct ShellActiveSegmentTraceSummary {
    /// Index of the shell sidecar.
    pub shell_index: u32,
    /// One bit for each of the first segments, set where it may be closest.
    pub active_segment_mask: u64,
    /// Number of segments of the shell.
    pub segment_count: usize,
    /// Whether the shell may be reduced to the active segments.
    pub sidecar_reduction_eligible: bool,
}

/// A trace captured by a VM evaluation
///
/// This stores regular min/max choices plus native shell trace payloads.
#[derive(Clone, PartialEq, Eq)]
pub struct VmTrace {
    choices: Vec<Choice>,
    shell_traces: Vec<Option<ShellIntervalTrace>>,
}

/// A sequence cut or filled up to `n` values.
pub open spec fn resized<T>(values: Seq<T>, n: nat, fill: T) -> Seq<T> {
    Seq::new(n, |i: int| if i < values.len() { values[i] } else { fill })
}

/// Cuts or fills up a vector to `n` values.
pub fn resize_to<T: Copy>(values: &mut Vec<T>, n: usize, fill: T)
    ensures
        final(values)@ == resized(old(values)@, n as nat, fill),
{
    let ghost given = values@;
    if values.len() > n {
        values.truncate(n);
    }
    while values.len() < n
        invariant
            values@.len() <= n,
            values@.len() < n ==> given.len() <= values@.len(),
            values@ == resized(given, values@.len(), fill),
        decreases n - values.len(),
    {
        values.push(fill);
        assert(values@ =~= resized(given, values@.len(), fill));
    }
    assert(values@ =~= resized(given, n as nat, fill));
}

/// The mask with a bit for every segment that a mask has room for.
pub open spec fn all_segments(segment_count: usize) -> u64 {
    if segment_count >= 64 {
        u64::MAX
    } else {
        ((1u64 << (segment_count as u64)) - 1) as u64
    }
}

/// Whether a trace can narrow a sidecar: some of several segments are active,
/// but not all.
pub open spec fn spec_shell_trace_can_simplify(trace: &ShellIntervalTrace) -> bool {
    &&& trace.sidecar_reduction_eligible
    &&& trace.active_segment_mask != 0
    &&& trace.active_segment_mask != all_segments(trace.segment_count)
    &&& trace.segment_count > 1
}

/// Whether a trace can narrow a sidecar.
#[verifier::when_used_as_spec(spec_shell_trace_can_simplify)]
pub fn shell_trace_can_simplify(trace: &ShellIntervalTrace) -> (r: bool)
    ensures
        r == shell_trace_can_simplify(trace),
{
    let all: u64 = if trace.segment_count >= 64 {
        u64::MAX
    } else {
        let count: u64 = trace.segment_count as u64;
        assert(1u64 << count >= 1) by (bit_vector)
            requires
                count < 64,
        ;
        (1u64 << count) - 1
    };
    trace.sidecar_reduction_eligible && trace.active_segment_mask != 0 && trace.active_segment_mask
        != all && trace.segment_count > 1
}

/// The summaries of the recorded traces, in order of their sidecars.
pub open spec fn summaries(traces: Seq<Option<ShellIntervalTrace>>) -> Seq<
    ShellActiveSegmentTraceSummary,
>
    decreases traces.len(),
{
    if traces.len() == 0 {
        Seq::empty()
    } else {
        let before = summaries(traces.drop_last());
        match traces.last() {
            None => before,
            Some(trace) => before.push(
                ShellActiveSegmentTraceSummary {
                    shell_index: (traces.len() - 1) as u32,
                    active_segment_mask: trace.active_segment_mask,
                    segment_count: trace.segment_count,
                    sidecar_reduction_eligible: trace.sidecar_reduction_eligible,
                },
            ),
        }
    }
}

/// A sequence of shell traces after one was recorded; a sidecar that is not in
/// the table is ignored.
pub open spec fn recorded(
    traces: Seq<Option<ShellIntervalTrace>>,
    shell: int,
    trace: ShellIntervalTrace,
) -> Seq<Option<ShellIntervalTrace>> {
    if 0 <= shell < traces.len() {
        traces.update(shell, Some(trace))
    } else {
        traces
    }
}

impl VmTrace {
    /// The recorded choices.
    pub closed spec fn choices(&self) -> Seq<Choice> {
        self.choices@
    }

    /// The recorded shell traces, by sidecar.
    pub closed spec fn shells(&self) -> Seq<Option<ShellIntervalTrace>> {
        self.shell_traces@
    }

    /// Builds an empty trace.
    pub fn new() -> (r: Self)
        ensures
            r.choices() == Seq::<Choice>::empty(),
            r.shells() == Seq::<Option<ShellIntervalTrace>>::empty(),
    {
        VmTrace { choices: Vec::new(), shell_traces: Vec::new() }
    }

    /// Fills the trace with the given value
    pub fn fill(&mut self, v: Choice)
        ensures
            final(self).choices() == Seq::new(old(self).choices().len(), |i: int| v),
            final(self).shells() == old(self).shells(),
    {
        let mut i: usize = 0;
        while i < self.choices.len()
            invariant
                i <= self.choices@.len(),
                self.choices@.len() == old(self).choices@.len(),
                self.shell_traces@ == old(self).shell_traces@,
                forall|k: int| 0 <= k < i ==> self.choices@[k] == v,
            decreases self.choices.len() - i,
        {
            self.choices.set(i, v);
            i = i + 1;
        }
        assert(self.choices@ =~= Seq::new(old(self).choices@.len(), |i: int| v));
    }

    /// Resizes the trace, using the new value if it needs to be extended
    pub fn resize(&mut self, n: usize, v: Choice)
        ensures
            final(self).choices() == resized(old(self).choices(), n as nat, v),
            final(self).shells() == old(self).shells(),
    {
        resize_to(&mut self.choices, n, v);
    }

    /// Resizes the shell trace sidecar table and clears previous payloads.
    pub fn resize_shells(&mut self, n: usize)
        ensures
            final(self).shells() == Seq::new(n as nat, |i: int| None::<ShellIntervalTrace>),
            final(self).choices() == old(self).choices(),
    {
        self.shell_traces.clear();
        resize_to(&mut self.shell_traces, n, None);
        assert(self.shell_traces@ =~= Seq::new(n as nat, |i: int| None::<ShellIntervalTrace>));
    }

    /// Records a shell interval trace for a topology sidecar.
    pub fn record_shell_trace(&mut self, shell: u32, trace: ShellIntervalTrace)
        ensures
            final(self).shells() == recorded(old(self).shells(), shell as int, trace),
            final(self).choices() == old(self).choices(),
    {
        self.record_shell(shell as usize, trace);
    }

    pub(crate) fn record_shell(&mut self, shell: usize, trace: ShellIntervalTrace)
        ensures
            final(self).shells() == recorded(old(self).shells(), shell as int, trace),
            final(self).choices() == old(self).choices(),
    {
        if shell < self.shell_traces.len() {
            self.shell_traces.set(shell, Some(trace));
        }
    }

    /// Adds to the choice at `index` what another choice tells.
    pub fn record_choice(&mut self, index: usize, choice: Choice)
        requires
            index < old(self).choices().len(),
        ensures
            final(self).choices() == old(self).choices().update(
                index as int,
                old(self).choices()[index as int].or(choice),
            ),
            final(self).shells() == old(self).shells(),
    {
        let before = self.choices[index];
        self.choices.set(index, before.or(choice));
    }

    /// Some recorded shell trace can narrow a sidecar.
    pub open spec fn narrows(&self) -> bool {
        exists|i: int|
            0 <= i < self.shells().len() && (#[trigger] self.shells()[i] matches Some(trace)
                && shell_trace_can_simplify(&trace))
    }

    /// Returns true if any shell trace can narrow a sidecar.
    pub fn has_shell_simplification(&self) -> (r: bool)
        ensures
            r == self.narrows(),
    {
        let mut i: usize = 0;
        while i < self.shell_traces.len()
            invariant
                i <= self.shell_traces@.len(),
                forall|k: int|
                    0 <= k < i ==> !(#[trigger] self.shells()[k] matches Some(trace)
                        && shell_trace_can_simplify(&trace)),
            decreases self.shell_traces.len() - i,
        {
            if let Some(trace) = &self.shell_traces[i] {
                if shell_trace_can_simplify(trace) {
                    assert(self.shells()[i as int] matches Some(trace)
                        && shell_trace_can_simplify(&trace));
                    return true;
                }
            }
            i = i + 1;
        }
        false
    }

    /// Returns shell trace payloads indexed by shell sidecar.
    pub fn shell_traces(&self) -> (r: &[Option<ShellIntervalTrace>])
        ensures
            r@ == self.shells(),
    {
        self.shell_traces.as_slice()
    }

    /// Returns active segment trace summaries for render metadata.
    pub fn active_segment_trace_summaries(&self) -> (r: Vec<ShellActiveSegmentTraceSummary>)
        ensures
            r@ == summaries(self.shells()),
    {
        let mut out: Vec<ShellActiveSegmentTraceSummary> = Vec::new();
        let mut i: usize = 0;
        assert(self.shells().take(0) =~= Seq::empty());
        while i < self.shell_traces.len()
            invariant
                i <= self.shell_traces@.len(),
                out@ == summaries(self.shells().take(i as int)),
            decreases self.shell_traces.len() - i,
        {
            assert(self.shells().take(i + 1).drop_last() =~= self.shells().take(i as int));
            if let Some(trace) = self.shell_traces[i] {
                out.push(
                    ShellActiveSegmentTraceSummary {
                        shell_index: i as u32,
                        active_segment_mask: trace.active_segment_mask,
                        segment_count: trace.segment_count,
                        sidecar_reduction_eligible: trace.sidecar_reduction_eligible,
                    },
                );
            }
            i = i + 1;
        }
        assert(self.shells().take(i as int) =~= self.shells());
        out
    }

    /// Returns the inner choice slice
    pub fn as_slice(&self) -> (r: &[Choice])
        ensures
            r@ == self.choices(),
    {
        self.choices.as_slice()
    }

    /// Returns the inner choice slice as a mutable reference
    pub fn as_mut_slice(&mut self) -> (r: &mut [Choice])
        ensures
            r@ == old(self).choices(),
            final(self).choices() == final(r)@,
            final(self).shells() == old(self).shells(),
    {
        self.choices.as_mut_slice()
    }

    /// Makes this trace a copy of another one.
    pub fn copy_from(&mut self, other: &VmTrace)
        ensures
            final(self).choices() == other.choices(),
            final(self).shells() == other.shells(),
    {
        self.choices.clear();
        let mut i: usize = 0;
        while i < other.choices.len()
            invariant
                i <= other.choices@.len(),
                self.choices@ == other.choices@.take(i as int),
            decreases other.choices.len() - i,
        {
            self.choices.push(other.choices[i]);
            i = i + 1;
            assert(self.choices@ =~= other.choices@.take(i as int));
        }
        self.shell_traces.clear();
        let mut j: usize = 0;
        while j < other.shell_traces.len()
            invariant
                j <= other.shell_traces@.len(),
                self.choices@ == other.choices@.take(i as int),
                self.shell_traces@ == other.shell_traces@.take(j as int),
            decreases other.shell_traces.len() - j,
        {
            self.shell_traces.push(other.shell_traces[j]);
            j = j + 1;
            assert(self.shell_traces@ =~= other.shell_traces@.take(j as int));
        }
        assert(self.choices@ =~= other.choices@);
        assert(self.shell_traces@ =~= other.shell_traces@);
    }

    /// Whether a shape simplified by this trace is worth keeping.
    pub fn keep_simplified_shape(&self) -> (r: bool)
        ensures
            r == self.narrows(),
    {
        self.has_shell_simplification()
    }
}

impl Default for VmTrace {
    fn default() -> (r: Self)
        ensures
            r.choices() == Seq::<Choice>::empty(),
            r.shells() == Seq::<Option<ShellIntervalTrace>>::empty(),
    {
        VmTrace::new()
    }
}

/// The trace of a shell that may be narrowed can narrow it where the mask holds one of
/// its segments and lacks another one. It cannot where the mask holds none or exactly
/// all of them.
pub proof fn lemma_masks_that_narrow(trace: &ShellIntervalTrace, i: u64, j: u64)
    requires
        i < 64 && j < 64 && i < trace.segment_count && j < trace.segment_count,
    ensures
        trace.sidecar_reduction_eligible && (trace.active_segment_mask >> i) & 1 == 1 && (
        trace.active_segment_mask >> j) & 1 == 0 ==> shell_trace_can_simplify(trace),
        (all_segments(trace.segment_count) >> i) & 1 == 1,
        trace.active_segment_mask == 0 || trace.active_segment_mask == all_segments(
            trace.segment_count,
        ) || !trace.sidecar_reduction_eligible ==> !shell_trace_can_simplify(trace),
{
    lemma_all_segments(trace.segment_count, i);
    lemma_all_segments(trace.segment_count, j);
    let none: u64 = 0;
    assert(none >> i & 1 == 0) by (bit_vector)
        requires
            none == 0u64,
    ;
}

/// The mask of all segments holds those that there are, and no others.
pub proof fn lemma_all_segments(segment_count: usize, i: u64)
    requires
        i < 64,
    ensures
        (all_segments(segment_count) >> i) & 1 == (if i < segment_count {
            1u64
        } else {
            0u64
        }),
{
    let n = segment_count as u64;
    if segment_count >= 64 {
        assert((0xffff_ffff_ffff_ffffu64 >> i) & 1 == 1) by (bit_vector)
            requires
                i < 64,
        ;
    } else {
        let power = 1u64 << n;
        assert(power >= 1) by (bit_vector)
            requires
                n < 64,
                power == 1u64 << n,
        ;
        let mask = (power - 1) as u64;
        assert((mask >> i) & 1 == (if i < n {
            1u64
        } else {
            0u64
        })) by (bit_vector)
            requires
                i < 64,
                n < 64,
                power == 1u64 << n,
                mask + 1 == power,
        ;
    }
}

} // verus!

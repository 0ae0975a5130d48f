use vstd::prelude::*;
use crate::classify::{Verdict, classify_arguments, lemma_verdicts_upto_shape, verdicts};
use vstd::math::min;
use crate::provenance::{BindingSite, CandidateBinding, Expr, OsCStrConv, candidate_flags_of, observed, refers_to_candidate};
use crate::signature::{CallSite, ResolutionMismatch, SignatureTable, FnSignature, call_args, resolved_callee, signature_of};

verus! {

/// What analyzing one call yields: its verdicts, or the resolution fault that
/// stopped it.
pub open spec fn call_outcome(table: Seq<CandidateBinding>, call: CallSite, sigs: Seq<FnSignature>) -> Result<
    Seq<Verdict>,
    ResolutionMismatch,
> {
    match resolved_callee(call) {
        Err(e) => Err(e),
        Ok(None) => Ok(seq![]),
        Ok(Some(def)) => match signature_of(sigs, def) {
            None => Err(ResolutionMismatch::NotFunctionType),
            Some(inputs) => Ok(verdicts(inputs, candidate_flags_of(table, call_args(call)))),
        },
    }
}

impl OsCStrConv {
    /// Classifies the candidate arguments of `call`, or reports why its callee
    /// could not be analyzed.
    pub fn analyze_call(&self, call: &CallSite, sigs: &SignatureTable) -> (r: Result<Vec<Verdict>, ResolutionMismatch>)
        ensures
            match r {
                Ok(v) => call_outcome(self@, *call, sigs.entries@) == Ok::<Seq<Verdict>, ResolutionMismatch>(v@),
                Err(e) => call_outcome(self@, *call, sigs.entries@) == Err::<Seq<Verdict>, ResolutionMismatch>(e),
            },
    {
        let flags = self.candidate_flags(call.args());
        match call.callee_def() {
            Err(e) => Err(e),
            Ok(None) => Ok(Vec::new()),
            Ok(Some(def)) => match sigs.find(def) {
                None => Err(ResolutionMismatch::NotFunctionType),
                Some(i) => Ok(classify_arguments(&sigs.entries[i].inputs, &flags)),
            },
        }
    }
}

/// One event of a compilation unit's traversal, in source order.
#[derive(Clone, Debug)]
pub enum UnitEvent {
    Binding(BindingSite),
    Call(CallSite),
}

/// What the analysis of a unit reports, tagged with the index of the event it
/// comes from.
#[derive(Clone, Copy, Debug, PartialEq, Eq, Structural)]
pub enum Finding {
    /// The verdict on one candidate argument of a call.
    Argument { event: usize, verdict: Verdict },
    /// A call that could not be analyzed; this goes to the internal-fault channel.
    Internal { event: usize, mismatch: ResolutionMismatch },
}

/// The binding table after the first `n` events.
pub open spec fn table_at(events: Seq<UnitEvent>, n: int) -> Seq<CandidateBinding>
    decreases n,
{
    if n <= 0 {
        seq![]
    } else {
        let table = table_at(events, n - 1);
        match events[n - 1] {
            UnitEvent::Binding(site) => observed(table, site),
            UnitEvent::Call(_) => table,
        }
    }
}

/// The findings of the call at index `event`, given its outcome.
pub open spec fn outcome_findings(event: int, outcome: Result<Seq<Verdict>, ResolutionMismatch>) -> Seq<Finding> {
    match outcome {
        Ok(vs) => Seq::new(vs.len(), |k: int| Finding::Argument { event: event as usize, verdict: vs[k] }),
        Err(e) => seq![Finding::Internal { event: event as usize, mismatch: e }],
    }
}

/// The findings of the event at index `j`: a call is analyzed against the
/// bindings observed before it.
pub open spec fn event_findings(events: Seq<UnitEvent>, sigs: Seq<FnSignature>, j: int) -> Seq<Finding> {
    match events[j] {
        UnitEvent::Binding(_) => seq![],
        UnitEvent::Call(call) => outcome_findings(j, call_outcome(table_at(events, j), call, sigs)),
    }
}

/// The findings of the first `n` events, in event order.
pub open spec fn findings_upto(events: Seq<UnitEvent>, sigs: Seq<FnSignature>, n: int) -> Seq<Finding>
    decreases n,
{
    if n <= 0 {
        seq![]
    } else {
        findings_upto(events, sigs, n - 1) + event_findings(events, sigs, n - 1)
    }
}

/// The findings of a whole unit.
pub open spec fn unit_findings(events: Seq<UnitEvent>, sigs: Seq<FnSignature>) -> Seq<Finding> {
    findings_upto(events, sigs, events.len() as int)
}

/// Analyzes one compilation unit: observes its bindings and analyzes its calls
/// in source order, with a binding table of its own.
pub fn analyze_unit(events: &Vec<UnitEvent>, sigs: &SignatureTable) -> (r: Vec<Finding>)
    ensures
        r@ == unit_findings(events@, sigs.entries@),
{
    let mut tracker = OsCStrConv::new();
    let mut out: Vec<Finding> = Vec::new();
    let mut i: usize = 0;
    while i < events.len()
        invariant
            i <= events@.len(),
            tracker@ == table_at(events@, i as int),
            out@ == findings_upto(events@, sigs.entries@, i as int),
        decreases events@.len() - i,
    {
        let ghost base = out@;
        match &events[i] {
            UnitEvent::Binding(site) => {
                tracker.observe_binding(site);
                assert(out@ =~= base + event_findings(events@, sigs.entries@, i as int));
            },
            UnitEvent::Call(call) => {
                match tracker.analyze_call(call, sigs) {
                    Ok(vs) => {
                        let mut k: usize = 0;
                        while k < vs.len()
                            invariant
                                k <= vs@.len(),
                                out@ =~= base + Seq::new(
                                    k as nat,
                                    |j: int| Finding::Argument { event: i, verdict: vs@[j] },
                                ),
                            decreases vs@.len() - k,
                        {
                            out.push(Finding::Argument { event: i, verdict: vs[k] });
                            k = k + 1;
                            assert(out@ =~= base + Seq::new(
                                k as nat,
                                |j: int| Finding::Argument { event: i, verdict: vs@[j] },
                            ));
                        }
                        assert(out@ =~= base + event_findings(events@, sigs.entries@, i as int));
                    },
                    Err(e) => {
                        out.push(Finding::Internal { event: i, mismatch: e });
                        assert(out@ =~= base + event_findings(events@, sigs.entries@, i as int));
                    },
                }
            },
        }
        i = i + 1;
    }
    out
}

/// Candidacy is monotonic: an expression that refers to a candidate after the
/// first `i` events still does after any later prefix of the unit.
pub proof fn lemma_candidacy_monotonic(events: Seq<UnitEvent>, i: int, j: int, e: Expr)
    requires
        0 <= i <= j <= events.len(),
        refers_to_candidate(table_at(events, i), e),
    ensures
        refers_to_candidate(table_at(events, j), e),
    decreases j - i,
{
    if j > i {
        lemma_candidacy_monotonic(events, i, j - 1, e);
        let before = table_at(events, j - 1);
        let after = table_at(events, j);
        assert(before.is_prefix_of(after));
        if let Expr::Local(id) = e {
            let w = choose|w: int| 0 <= w < before.len() && (#[trigger] before[w]).binding == id;
            assert(after[w] == before[w]);
        }
    }
}

/// The binding table does not depend on calls: replacing the call at index `m`
/// by any other call leaves the table after every prefix unchanged.
pub proof fn lemma_table_ignores_calls(events: Seq<UnitEvent>, m: int, other: CallSite, n: int)
    requires
        0 <= m < events.len(),
        events[m] is Call,
        n <= events.len(),
    ensures
        table_at(events.update(m, UnitEvent::Call(other)), n) == table_at(events, n),
    decreases n,
{
    if n > 0 {
        lemma_table_ignores_calls(events, m, other, n - 1);
    }
}

/// Fault isolation: whatever the call at index `m` yields, a resolution fault
/// included, the findings of every other event of the unit stay the same.
pub proof fn lemma_fault_isolation(events: Seq<UnitEvent>, sigs: Seq<FnSignature>, m: int, other: CallSite, j: int)
    requires
        0 <= m < events.len(),
        events[m] is Call,
        0 <= j < events.len(),
        j != m,
    ensures
        event_findings(events.update(m, UnitEvent::Call(other)), sigs, j) == event_findings(events, sigs, j),
{
    lemma_table_ignores_calls(events, m, other, j);
}

/// Determinism: two analyses of the same events against signature tables that
/// resolve every definition alike yield the same findings in the same order.
pub proof fn lemma_same_facts_same_findings(events: Seq<UnitEvent>, sigs1: Seq<FnSignature>, sigs2: Seq<FnSignature>)
    requires
        forall|def: u64| #[trigger] signature_of(sigs1, def) == signature_of(sigs2, def),
    ensures
        unit_findings(events, sigs1) == unit_findings(events, sigs2),
{
    lemma_same_facts_upto(events, sigs1, sigs2, events.len() as int);
}

proof fn lemma_same_facts_upto(events: Seq<UnitEvent>, sigs1: Seq<FnSignature>, sigs2: Seq<FnSignature>, n: int)
    requires
        forall|def: u64| #[trigger] signature_of(sigs1, def) == signature_of(sigs2, def),
        n <= events.len(),
    ensures
        findings_upto(events, sigs1, n) == findings_upto(events, sigs2, n),
    decreases n,
{
    if n > 0 {
        lemma_same_facts_upto(events, sigs1, sigs2, n - 1);
        assert(event_findings(events, sigs1, n - 1) == event_findings(events, sigs2, n - 1));
    }
}

pub open spec fn finding_event(f: Finding) -> int {
    match f {
        Finding::Argument { event, .. } => event as int,
        Finding::Internal { event, .. } => event as int,
    }
}

/// Whether two findings are verdicts on one call with the first at a lower
/// argument position than the second.
pub open spec fn argument_order(f: Finding, g: Finding) -> bool {
    match (f, g) {
        (Finding::Argument { event: e1, verdict: v1 }, Finding::Argument { event: e2, verdict: v2 }) => e1
            == e2 ==> v1.position < v2.position,
        _ => true,
    }
}

/// Findings come in source order: by event, and within one call by argument
/// position.
pub proof fn lemma_findings_in_source_order(events: Seq<UnitEvent>, sigs: Seq<FnSignature>)
    requires
        events.len() <= usize::MAX,
        forall|j: int|
            0 <= j < events.len() && #[trigger] events[j] is Call ==> call_args(events[j]->Call_0).len()
                <= usize::MAX,
    ensures
        forall|k: int, l: int|
            0 <= k < l < unit_findings(events, sigs).len() ==> finding_event(unit_findings(events, sigs)[k])
                <= finding_event(unit_findings(events, sigs)[l]),
        forall|k: int, l: int|
            0 <= k < l < unit_findings(events, sigs).len() ==> argument_order(
                unit_findings(events, sigs)[k],
                unit_findings(events, sigs)[l],
            ),
{
    lemma_order_upto(events, sigs, events.len() as int);
}

proof fn lemma_event_findings_order(events: Seq<UnitEvent>, sigs: Seq<FnSignature>, j: int)
    requires
        0 <= j < events.len() <= usize::MAX,
        events[j] is Call ==> call_args(events[j]->Call_0).len() <= usize::MAX,
    ensures
        forall|k: int|
            0 <= k < event_findings(events, sigs, j).len() ==> finding_event(
                #[trigger] event_findings(events, sigs, j)[k],
            ) == j,
        forall|k: int, l: int|
            0 <= k < l < event_findings(events, sigs, j).len() ==> argument_order(
                event_findings(events, sigs, j)[k],
                event_findings(events, sigs, j)[l],
            ),
{
    if let UnitEvent::Call(call) = events[j] {
        let table = table_at(events, j);
        if let Ok(Some(def)) = resolved_callee(call) {
            if let Some(inputs) = signature_of(sigs, def) {
                let flags = candidate_flags_of(table, call_args(call));
                let n = min(inputs.len() as int, flags.len() as int);
                lemma_verdicts_upto_shape(inputs, flags, n);
            }
        }
    }
}

proof fn lemma_order_upto(events: Seq<UnitEvent>, sigs: Seq<FnSignature>, n: int)
    requires
        0 <= n <= events.len() <= usize::MAX,
        forall|j: int|
            0 <= j < events.len() && #[trigger] events[j] is Call ==> call_args(events[j]->Call_0).len()
                <= usize::MAX,
    ensures
        forall|k: int|
            0 <= k < findings_upto(events, sigs, n).len() ==> finding_event(
                #[trigger] findings_upto(events, sigs, n)[k],
            ) < n,
        forall|k: int, l: int|
            0 <= k < l < findings_upto(events, sigs, n).len() ==> finding_event(findings_upto(events, sigs, n)[k])
                <= finding_event(findings_upto(events, sigs, n)[l]),
        forall|k: int, l: int|
            0 <= k < l < findings_upto(events, sigs, n).len() ==> argument_order(
                findings_upto(events, sigs, n)[k],
                findings_upto(events, sigs, n)[l],
            ),
    decreases n,
{
    if n > 0 {
        lemma_order_upto(events, sigs, n - 1);
        assert(events[n - 1] is Call ==> call_args(events[n - 1]->Call_0).len() <= usize::MAX);
        lemma_event_findings_order(events, sigs, n - 1);
        let prev = findings_upto(events, sigs, n - 1);
        let cur = event_findings(events, sigs, n - 1);
        let all = findings_upto(events, sigs, n);
        assert(all == prev + cur);
        assert forall|k: int| 0 <= k < all.len() implies finding_event(#[trigger] all[k]) < n by {
            if k >= prev.len() {
                assert(all[k] == cur[k - prev.len()]);
            }
        }
        assert forall|k: int, l: int| 0 <= k < l < all.len() implies finding_event(all[k]) <= finding_event(all[l])
            && argument_order(all[k], all[l]) by {
            if l < prev.len() {
                assert(all[k] == prev[k] && all[l] == prev[l]);
            } else if k < prev.len() {
                assert(all[k] == prev[k] && all[l] == cur[l - prev.len()]);
                assert(finding_event(prev[k]) < n - 1);
                assert(finding_event(cur[l - prev.len()]) == n - 1);
            } else {
                assert(all[k] == cur[k - prev.len()] && all[l] == cur[l - prev.len()]);
            }
        }
    }
}

} // verus!

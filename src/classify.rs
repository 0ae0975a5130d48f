use vstd::prelude::*;
use vstd::math::min;

verus! {

/// The shape of one input parameter in a callee's declared, unsubstituted signature.
#[derive(Clone, Copy, Debug, PartialEq, Eq, Structural)]
pub enum ParamShape {
    /// A concrete type, named by the host's identity for it.
    Concrete(u64),
    /// The callee's generic type parameter with this index.
    Generic(u32),
}

/// Whether the conversion that produced an argument can be dropped.
#[derive(Clone, Copy, Debug, PartialEq, Eq, Structural)]
pub enum Classification {
    /// The parameter needs the converted value.
    Necessary,
    /// The parameter would accept the unconverted native value.
    Removable,
}

/// The classification of the argument at one position of a call.
#[derive(Clone, Copy, Debug, PartialEq, Eq, Structural)]
pub struct Verdict {
    pub position: usize,
    pub class: Classification,
}

/// How many input positions refer to the generic parameter `param`.
pub open spec fn usage_count(inputs: Seq<ParamShape>, param: u32) -> nat
    decreases inputs.len(),
{
    if inputs.len() == 0 {
        0
    } else {
        usage_count(inputs.drop_last(), param) + if inputs.last() == ParamShape::Generic(param) {
            1nat
        } else {
            0nat
        }
    }
}

/// The verdict for a candidate argument at position `i`: only a generic parameter
/// that no other input position shares lets the conversion go.
pub open spec fn classification_of(inputs: Seq<ParamShape>, i: int) -> Classification {
    match inputs[i] {
        ParamShape::Concrete(_) => Classification::Necessary,
        ParamShape::Generic(p) => if usage_count(inputs, p) == 1 {
            Classification::Removable
        } else {
            Classification::Necessary
        },
    }
}

/// The verdicts for the candidate positions below `n`, in position order.
pub open spec fn verdicts_upto(inputs: Seq<ParamShape>, candidates: Seq<bool>, n: int) -> Seq<Verdict>
    decreases n,
{
    if n <= 0 {
        seq![]
    } else {
        let prev = verdicts_upto(inputs, candidates, n - 1);
        if candidates[n - 1] {
            prev.push(Verdict { position: (n - 1) as usize, class: classification_of(inputs, n - 1) })
        } else {
            prev
        }
    }
}

/// The verdicts of a call: one for each candidate position that has an input
/// parameter, in position order.
pub open spec fn verdicts(inputs: Seq<ParamShape>, candidates: Seq<bool>) -> Seq<Verdict> {
    verdicts_upto(inputs, candidates, min(inputs.len() as int, candidates.len() as int))
}

/// Every verdict below `n` stands at a candidate position below `n` and carries
/// that position's classification; positions strictly increase; and each
/// candidate position below `n` has a verdict.
pub proof fn lemma_verdicts_upto_shape(inputs: Seq<ParamShape>, candidates: Seq<bool>, n: int)
    requires
        0 <= n <= inputs.len(),
        n <= candidates.len(),
        n <= usize::MAX + 1,
    ensures
        forall|k: int|
            0 <= k < verdicts_upto(inputs, candidates, n).len() ==> {
                &&& #[trigger] verdicts_upto(inputs, candidates, n)[k].position < n
                &&& candidates[verdicts_upto(inputs, candidates, n)[k].position as int]
                &&& verdicts_upto(inputs, candidates, n)[k].class == classification_of(
                    inputs,
                    verdicts_upto(inputs, candidates, n)[k].position as int,
                )
            },
        forall|k: int, l: int|
            0 <= k < l < verdicts_upto(inputs, candidates, n).len() ==> verdicts_upto(inputs, candidates, n)[k].position
                < verdicts_upto(inputs, candidates, n)[l].position,
        forall|i: int|
            0 <= i < n && candidates[i] ==> exists|k: int|
                0 <= k < verdicts_upto(inputs, candidates, n).len() && verdicts_upto(inputs, candidates, n)[k].position == i,
    decreases n,
{
    if n > 0 {
        lemma_verdicts_upto_shape(inputs, candidates, n - 1);
        let prev = verdicts_upto(inputs, candidates, n - 1);
        let cur = verdicts_upto(inputs, candidates, n);
        assert forall|i: int| 0 <= i < n && candidates[i] implies exists|k: int|
            0 <= k < cur.len() && cur[k].position == i by {
            if i < n - 1 {
                let k = choose|k: int| 0 <= k < prev.len() && prev[k].position == i;
                assert(cur[k] == prev[k]);
            } else {
                assert(cur[cur.len() - 1].position == i);
            }
        }
    }
}

/// A candidate argument has exactly one verdict, and it is the classification
/// of its input position.
pub proof fn lemma_verdict_of_candidate(inputs: Seq<ParamShape>, candidates: Seq<bool>, i: int)
    requires
        0 <= i < inputs.len(),
        i < candidates.len(),
        candidates[i],
        inputs.len() <= usize::MAX,
    ensures
        verdicts(inputs, candidates).contains(Verdict { position: i as usize, class: classification_of(inputs, i) }),
        forall|k: int|
            0 <= k < verdicts(inputs, candidates).len() && verdicts(inputs, candidates)[k].position == i
                ==> verdicts(inputs, candidates)[k].class == classification_of(inputs, i),
{
    let n = min(inputs.len() as int, candidates.len() as int);
    lemma_verdicts_upto_shape(inputs, candidates, n);
    let vs = verdicts(inputs, candidates);
    let k = choose|k: int| 0 <= k < vs.len() && vs[k].position == i;
    assert(vs[k] == Verdict { position: i as usize, class: classification_of(inputs, i) });
}

/// A candidate argument whose generic parameter occurs at exactly one input
/// position is classified `Removable`.
pub proof fn lemma_single_use_is_removable(inputs: Seq<ParamShape>, candidates: Seq<bool>, i: int, param: u32)
    requires
        0 <= i < inputs.len(),
        i < candidates.len(),
        candidates[i],
        inputs.len() <= usize::MAX,
        inputs[i] == ParamShape::Generic(param),
        usage_count(inputs, param) == 1,
    ensures
        verdicts(inputs, candidates).contains(Verdict { position: i as usize, class: Classification::Removable }),
        forall|k: int|
            0 <= k < verdicts(inputs, candidates).len() && verdicts(inputs, candidates)[k].position == i
                ==> verdicts(inputs, candidates)[k].class == Classification::Removable,
{
    lemma_verdict_of_candidate(inputs, candidates, i);
}

/// A candidate argument whose generic parameter occurs at two or more input
/// positions, candidates or not, is classified `Necessary`.
pub proof fn lemma_shared_use_is_necessary(inputs: Seq<ParamShape>, candidates: Seq<bool>, i: int, param: u32)
    requires
        0 <= i < inputs.len(),
        i < candidates.len(),
        candidates[i],
        inputs.len() <= usize::MAX,
        inputs[i] == ParamShape::Generic(param),
        usage_count(inputs, param) >= 2,
    ensures
        verdicts(inputs, candidates).contains(Verdict { position: i as usize, class: Classification::Necessary }),
        forall|k: int|
            0 <= k < verdicts(inputs, candidates).len() && verdicts(inputs, candidates)[k].position == i
                ==> verdicts(inputs, candidates)[k].class == Classification::Necessary,
{
    lemma_verdict_of_candidate(inputs, candidates, i);
}

/// A candidate argument at a concrete input position is classified `Necessary`.
pub proof fn lemma_concrete_is_necessary(inputs: Seq<ParamShape>, candidates: Seq<bool>, i: int)
    requires
        0 <= i < inputs.len(),
        i < candidates.len(),
        candidates[i],
        inputs.len() <= usize::MAX,
        inputs[i] is Concrete,
    ensures
        verdicts(inputs, candidates).contains(Verdict { position: i as usize, class: Classification::Necessary }),
        forall|k: int|
            0 <= k < verdicts(inputs, candidates).len() && verdicts(inputs, candidates)[k].position == i
                ==> verdicts(inputs, candidates)[k].class == Classification::Necessary,
{
    lemma_verdict_of_candidate(inputs, candidates, i);
}

/// Counts the input positions that refer to the generic parameter `param`.
pub fn count_uses(inputs: &Vec<ParamShape>, param: u32) -> (r: usize)
    ensures
        r == usage_count(inputs@, param),
{
    let mut n: usize = 0;
    let mut i: usize = 0;
    while i < inputs.len()
        invariant
            i <= inputs.len(),
            n <= i,
            n == usage_count(inputs@.take(i as int), param),
        decreases inputs.len() - i,
    {
        assert(inputs@.take(i + 1).drop_last() =~= inputs@.take(i as int));
        if inputs[i] == ParamShape::Generic(param) {
            n = n + 1;
        }
        i = i + 1;
    }
    assert(inputs@.take(inputs.len() as int) =~= inputs@);
    n
}

/// Relies on itertools::zip: the pair at `i` holds the `i`-th item of each side,
/// and the pairing stops at the end of the shorter side.
#[verifier::external_body]
#[allow(deprecated)]
fn zip_with_candidates(inputs: &Vec<ParamShape>, candidates: &Vec<bool>) -> (r: Vec<(ParamShape, bool)>)
    ensures
        r@.len() == min(inputs@.len() as int, candidates@.len() as int),
        forall|i: int| 0 <= i < r@.len() ==> r@[i] == (inputs@[i], candidates@[i]),
{
    itertools::zip(inputs.iter().copied(), candidates.iter().copied()).collect()
}

/// Classifies each candidate argument of a call against the callee's input
/// parameters; `candidates[i]` tells whether the argument at `i` came from a
/// narrowing conversion.
pub fn classify_arguments(inputs: &Vec<ParamShape>, candidates: &Vec<bool>) -> (r: Vec<Verdict>)
    ensures
        r@ == verdicts(inputs@, candidates@),
{
    let pairs = zip_with_candidates(inputs, candidates);
    let mut out: Vec<Verdict> = Vec::new();
    let mut k: usize = 0;
    while k < pairs.len()
        invariant
            k <= pairs@.len(),
            pairs@.len() == min(inputs@.len() as int, candidates@.len() as int),
            forall|i: int| 0 <= i < pairs@.len() ==> pairs@[i] == (inputs@[i], candidates@[i]),
            out@ == verdicts_upto(inputs@, candidates@, k as int),
        decreases pairs@.len() - k,
    {
        let (shape, candidate) = pairs[k];
        if candidate {
            let class = match shape {
                ParamShape::Concrete(_) => Classification::Necessary,
                ParamShape::Generic(p) => if count_uses(inputs, p) == 1 {
                    Classification::Removable
                } else {
                    Classification::Necessary
                },
            };
            out.push(Verdict { position: k, class });
        }
        k = k + 1;
    }
    out
}

} // verus!

//! What holds of all stages of a sequence.

use crate::plan::{each, only_if};
use crate::stage::Stage;
use vstd::prelude::*;

verus! {

/// Whether a property holds of each stage of a sequence.
#[verifier::opaque]
pub open spec fn all(stages: Seq<Stage>, p: spec_fn(Stage) -> bool) -> bool {
    forall|i: int| 0 <= i < stages.len() ==> p(#[trigger] stages[i])
}

pub broadcast proof fn lemma_all_empty(p: spec_fn(Stage) -> bool)
    ensures
        #[trigger] all(Seq::empty(), p),
{
    reveal(all);
}

pub broadcast proof fn lemma_all_push(stages: Seq<Stage>, stage: Stage, p: spec_fn(Stage) -> bool)
    ensures
        #[trigger] all(stages.push(stage), p) <==> all(stages, p) && p(stage),
{
    reveal(all);
    if all(stages.push(stage), p) {
        assert forall|i: int| 0 <= i < stages.len() implies p(#[trigger] stages[i]) by {
            assert(stages.push(stage)[i] == stages[i]);
        }
        assert(stages.push(stage)[stages.len() as int] == stage);
    }
}

pub broadcast proof fn lemma_all_add(a: Seq<Stage>, b: Seq<Stage>, p: spec_fn(Stage) -> bool)
    ensures
        #[trigger] all(a + b, p) <==> all(a, p) && all(b, p),
{
    reveal(all);
    if all(a + b, p) {
        assert forall|i: int| 0 <= i < a.len() implies p(#[trigger] a[i]) by {
            assert((a + b)[i] == a[i]);
        }
        assert forall|i: int| 0 <= i < b.len() implies p(#[trigger] b[i]) by {
            assert((a + b)[i + a.len()] == b[i]);
        }
    }
}

pub broadcast proof fn lemma_all_only_if(condition: bool, stage: Stage, p: spec_fn(Stage) -> bool)
    ensures
        #[trigger] all(only_if(condition, stage), p) <==> (condition ==> p(stage)),
{
    reveal(all);
    if condition {
        assert(only_if(condition, stage)[0] == stage);
    }
}

pub broadcast proof fn lemma_all_each(
    len: nat,
    stage: spec_fn(usize) -> Stage,
    p: spec_fn(Stage) -> bool,
)
    ensures
        #[trigger] all(each(len, stage), p) <==> forall|i: int|
            0 <= i < len ==> p(#[trigger] stage(i as usize)),
{
    reveal(all);
    if all(each(len, stage), p) {
        assert forall|i: int| 0 <= i < len implies p(#[trigger] stage(i as usize)) by {
            assert(each(len, stage)[i] == stage(i as usize));
        }
    }
}

/// How `all` goes by the parts of a sequence.
pub broadcast group group_all {
    lemma_all_empty,
    lemma_all_push,
    lemma_all_add,
    lemma_all_only_if,
    lemma_all_each,
}

} // verus!

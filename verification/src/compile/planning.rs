//! How the stages build on each other, and what can be linked.
use vstd::prelude::*;
use crate::compile::stages::{
    fault_from, kept, packages_of, stages_for, wasm_count, Goal, LinkInput, StageKind,
};
use crate::session::target::ProjectType;
use crate::symbol::Symbol;

verus! {

/// To go all the way is to go to the rewritten representation and from there to the artifact, and to
/// rewrite comes after all that is needed without it. What is not assembled is not generated either.
/// A stage of the caller comes right before assembly, which is last.
pub proof fn stages_build_on_each_other(goal: Goal, pre_assembly: bool)
    ensures
        stages_for(Goal::Artifact, pre_assembly) == stages_for(Goal::OptimizedHir, pre_assembly)
            + stages_for(Goal::FromHir, pre_assembly),
        stages_for(Goal::OptimizedHir, pre_assembly) == stages_for(
            Goal::UnoptimizedHir,
            pre_assembly,
        ).push(StageKind::ApplyRewrites),
        stages_for(Goal::UnoptimizedHir, pre_assembly) == seq![StageKind::Parse, StageKind::Link],
        ({
            let stages = stages_for(goal, pre_assembly);
            let n = stages.len() as int;
            &&& stages.contains(StageKind::Codegen) <==> goal == Goal::Artifact || goal
                == Goal::FromHir
            &&& stages.contains(StageKind::Codegen) ==> stages[n - 1] == StageKind::Assemble
            &&& stages.contains(StageKind::Assemble) ==> stages.contains(StageKind::Codegen)
            &&& stages.contains(StageKind::PreAssembly) <==> pre_assembly && stages.contains(
                StageKind::Codegen,
            )
            &&& stages.contains(StageKind::PreAssembly) ==> stages[n - 2] == StageKind::PreAssembly
                && stages[n - 3] == StageKind::Codegen
            &&& forall|i: int, j: int| 0 <= i < j < n ==> stages[i] != stages[j]
        }),
{
    assert(stages_for(Goal::Artifact, pre_assembly) =~= stages_for(Goal::OptimizedHir, pre_assembly)
        + stages_for(Goal::FromHir, pre_assembly));
    assert(stages_for(Goal::OptimizedHir, pre_assembly) =~= stages_for(
        Goal::UnoptimizedHir,
        pre_assembly,
    ).push(StageKind::ApplyRewrites));
    assert(stages_for(Goal::UnoptimizedHir, pre_assembly) =~= seq![
        StageKind::Parse,
        StageKind::Link,
    ]);
    let stages = stages_for(goal, pre_assembly);
    let n = stages.len() as int;
    match goal {
        Goal::Artifact => {
            assert(stages[3] == StageKind::Codegen);
            assert(pre_assembly ==> stages[4] == StageKind::PreAssembly);
        },
        Goal::FromHir => {
            assert(stages[0] == StageKind::Codegen);
            assert(pre_assembly ==> stages[1] == StageKind::PreAssembly);
        },
        _ => {},
    }
}

/// The inputs that are kept are exactly those that are to be kept, in their order.
pub proof fn inputs_are_kept_in_order(
    inputs: Seq<LinkInput>,
    keep: spec_fn(LinkInput) -> bool,
    n: int,
)
    requires
        0 <= n <= inputs.len() <= usize::MAX,
    ensures
        forall|i: int|
            0 <= i < n ==> (kept(inputs, keep, n).contains(i as usize) <==> keep(
                #[trigger] inputs[i],
            )),
        forall|k: int| 0 <= k < kept(inputs, keep, n).len() ==> #[trigger] kept(inputs, keep, n)[k] < n,
        forall|k: int, l: int|
            0 <= k < l < kept(inputs, keep, n).len() ==> kept(inputs, keep, n)[k] < kept(
                inputs,
                keep,
                n,
            )[l],
    decreases n,
{
    if n > 0 {
        inputs_are_kept_in_order(inputs, keep, n - 1);
        let before = kept(inputs, keep, n - 1);
        let now = kept(inputs, keep, n);
        assert forall|i: int| 0 <= i < n implies (now.contains(i as usize) <==> keep(
            #[trigger] inputs[i],
        )) by {
            if keep(inputs[n - 1]) {
                assert(now[now.len() - 1] == (n - 1) as usize);
                assert forall|k: int| 0 <= k < before.len() implies now[k] == before[k] by {}
                if i < n - 1 {
                    if before.contains(i as usize) {
                        let k = before.index_of(i as usize);
                        assert(now[k] == i as usize);
                    }
                    if now.contains(i as usize) {
                        let k = now.index_of(i as usize);
                        assert(k < before.len());
                        assert(before[k] == i as usize);
                    }
                }
            } else if i == n - 1 {
                assert(!before.contains(i as usize));
            }
        }
    }
}

/// Inputs can be linked exactly if no two of them are WebAssembly and, for a library, none is a
/// program.
pub proof fn inputs_without_fault_can_be_linked(
    inputs: Seq<LinkInput>,
    project_type: ProjectType,
    from: int,
)
    requires
        0 <= from <= inputs.len(),
    ensures
        fault_from(inputs, project_type, from) is None <==> (forall|i: int|
            from <= i < inputs.len() ==> !(#[trigger] inputs[i] is Wasm && wasm_count(inputs, i) > 0)
                && !(project_type == ProjectType::Library && inputs[i] == (LinkInput::Module {
                is_executable: true,
            }))),
    decreases inputs.len() - from,
{
    if from < inputs.len() {
        inputs_without_fault_can_be_linked(inputs, project_type, from + 1);
        if fault_from(inputs, project_type, from) is None {
            assert(fault_from(inputs, project_type, from + 1) is None);
        } else if fault_from(inputs, project_type, from + 1) is None {
            assert(inputs[from] is Wasm || inputs[from] is Module);
        }
    }
}

/// As many inputs are counted as there are WebAssembly inputs: none exactly if there are none.
pub proof fn wasm_inputs_are_counted(inputs: Seq<LinkInput>, n: int)
    requires
        0 <= n <= inputs.len(),
    ensures
        wasm_count(inputs, n) > 0 <==> exists|i: int| 0 <= i < n && #[trigger] inputs[i] is Wasm,
    decreases n,
{
    if n > 0 {
        wasm_inputs_are_counted(inputs, n - 1);
        if inputs[n - 1] is Wasm {
        } else if wasm_count(inputs, n) > 0 {
            let i = choose|i: int| 0 <= i < n - 1 && #[trigger] inputs[i] is Wasm;
            assert(inputs[i] is Wasm);
        }
    }
}

/// A package stands for the last input of its name.
pub proof fn the_last_package_of_a_name_counts(inputs: Seq<LinkInput>, n: int, name: Symbol)
    requires
        0 <= n <= inputs.len() <= usize::MAX,
    ensures
        packages_of(inputs, n).dom().contains(name) <==> exists|i: int|
            0 <= i < n && #[trigger] inputs[i] == (LinkInput::Package { name }),
        packages_of(inputs, n).dom().contains(name) ==> {
            let i = packages_of(inputs, n)[name] as int;
            &&& 0 <= i < n
            &&& inputs[i] == (LinkInput::Package { name })
            &&& forall|j: int| i < j < n ==> #[trigger] inputs[j] != (LinkInput::Package { name })
        },
    decreases n,
{
    if n > 0 {
        the_last_package_of_a_name_counts(inputs, n - 1, name);
        if inputs[n - 1] == (LinkInput::Package { name }) {
        } else if packages_of(inputs, n).dom().contains(name) {
            assert(packages_of(inputs, n - 1).dom().contains(name));
            let i = packages_of(inputs, n - 1)[name] as int;
            assert(inputs[i] == (LinkInput::Package { name }));
        }
    }
}

} // verus!

use midenc::hir::operation::OperationName;
use midenc::pass::manager::{
    check_schedule, find_operation, verification_after, ExclusiveFlags, IRPrintingConfig,
    PassDisplayMode, PassManager, PrintingOptions, RunError, Verification,
};
use midenc::pass::report::print_pass_entry;
use midenc::pass::collected::{Collected, Lanes, Table};
use midenc::pass::statistics::{
    AnyStatistic, FlagAll, FlagAny, FlagNone, KindMismatch, PassStatistic, Statistic,
    StatisticValue,
};
use midenc::pass::finalize::UnschedulablePass;
use midenc::pass::run::{OpRef, PassHooks, PassOutcome, Recorder};
use midenc::pass::tree::{
    IsolatedOps, Nesting, OpPassManager, OpToOpPassAdaptor, PassEntry, PassInfo,
};
use midenc::symbol::Interner;

/// What a rehearsal was asked to do, or told.
#[derive(Clone, Copy, PartialEq, Eq, Debug)]
enum Note {
    Initialize,
    Verify { op: u32, recursive: bool },
    BeforePipeline { op: u32, nested: bool },
    AfterPipeline,
    Clear { op: u32 },
    BeforePass { op: u32 },
    Run { op: u32 },
    Invalidate { op: u32 },
    AfterPass { op: u32, succeeded: bool },
    List { op: u32 },
}

/// Runs no code: it notes what it is asked to do, and answers as it was told to.
struct Rehearsal {
    ready: bool,
    valid: bool,
    outcomes: Vec<PassOutcome>,
    ops: Vec<(OpRef, Vec<OpRef>)>,
    notes: Vec<Note>,
}

fn rehearsal(ops: Vec<(OpRef, Vec<OpRef>)>) -> Recorder<Rehearsal> {
    Recorder::new(Rehearsal {
        ready: true,
        valid: true,
        outcomes: Vec::new(),
        ops,
        notes: Vec::new(),
    })
}

impl PassHooks for Rehearsal {
    fn initialize(&mut self, _pass: &PassInfo) -> bool {
        self.notes.push(Note::Initialize);
        self.ready
    }

    fn verify(&mut self, op: OpRef, recursive: bool) -> bool {
        self.notes.push(Note::Verify { op: op.id, recursive });
        self.valid
    }

    fn before_pipeline(
        &mut self,
        _manager: Option<OperationName>,
        parent: Option<&PassEntry>,
        op: OpRef,
    ) {
        self.notes.push(Note::BeforePipeline { op: op.id, nested: parent.is_some() });
    }

    fn after_pipeline(&mut self, _manager: Option<OperationName>, _parent: Option<&PassEntry>) {
        self.notes.push(Note::AfterPipeline);
    }

    fn clear(&mut self, op: OpRef) {
        self.notes.push(Note::Clear { op: op.id });
    }

    fn before_pass(&mut self, _pass: &PassEntry, op: OpRef) {
        self.notes.push(Note::BeforePass { op: op.id });
    }

    fn run_pass(&mut self, _pass: &PassInfo, op: OpRef) -> PassOutcome {
        self.notes.push(Note::Run { op: op.id });
        match self.outcomes.pop() {
            Some(outcome) => outcome,
            None => PassOutcome { succeeded: true, preserved_all: true },
        }
    }

    fn invalidate(&mut self, op: OpRef) {
        self.notes.push(Note::Invalidate { op: op.id });
    }

    fn after_pass(&mut self, _pass: &PassEntry, op: OpRef, succeeded: bool) {
        self.notes.push(Note::AfterPass { op: op.id, succeeded });
    }

    fn nested(&mut self, op: OpRef) -> Vec<OpRef> {
        self.notes.push(Note::List { op: op.id });
        self.ops.iter().filter(|(of, _)| *of == op).flat_map(|(_, list)| list.clone()).collect()
    }
}

struct World {
    interner: Interner,
    module: OperationName,
    function: OperationName,
}

fn world() -> World {
    let mut interner = Interner::new();
    let builtin = interner.intern("builtin");
    let module = OperationName { dialect: builtin, opcode: interner.intern("module") };
    let function = OperationName { dialect: builtin, opcode: interner.intern("function") };
    World { interner, module, function }
}

fn pass(name: &str, target: Option<OperationName>) -> PassEntry {
    PassEntry::Pass(PassInfo {
        name: String::from(name),
        target,
        text: String::from(name),
        statistics: Vec::new(),
    })
}

fn counter(name: &str, value: u32) -> AnyStatistic {
    AnyStatistic::U32(Collected::One(PassStatistic::new(
        String::from(name),
        String::from("what it counts"),
        value,
    )))
}

#[test]
fn values_are_merged() {
    let mut a = 3u32;
    a.merge(&mut 4);
    assert_eq!(a, 7);
    let mut big = u8::MAX;
    big.merge(&mut 1);
    assert_eq!(big, u8::MAX);
    let mut any = FlagAny(false);
    any.merge(&mut FlagAny(true));
    assert!(any.get());
    let mut all = FlagAll(true);
    all.merge(&mut FlagAll(false));
    assert!(!all.get());
    let mut none = FlagNone::default();
    assert!(none.get());
    none.merge(&mut FlagNone(true));
    assert!(!none.get());
    let mut list = vec![1u32];
    list.merge(&mut vec![2, 3]);
    assert_eq!(list, vec![1, 2, 3]);
    let mut array = [1u32, 2];
    array.merge(&mut [10, 20]);
    assert_eq!(array, [11, 22]);
    assert_eq!(5u64.pretty_print(), "5");
    assert_eq!((-5i32).pretty_print(), "-5");
    assert_eq!(FlagAll(true).pretty_print(), "true");
}

#[test]
fn statistics_of_one_kind_are_merged() {
    let mut a = counter("n", 1);
    let mut b = counter("n", 2);
    assert!(a.try_merge(&mut b).is_ok());
    assert_eq!(a.downcast_ref::<u32>(), Some(&3));
    let mut other = AnyStatistic::U64(Collected::One(PassStatistic::new(
        String::from("n"),
        String::from(""),
        2,
    )));
    assert!(matches!(a.try_merge(&mut other), Err(KindMismatch {})));
    let copy = a.duplicate();
    assert_eq!(copy.downcast_ref::<u32>(), Some(&3));
    assert_eq!(copy.name(), "n");
}

#[test]
fn statistics_are_the_same_by_name() {
    let a = PassStatistic::new(String::from("a"), String::from("x"), 1u32);
    let b = PassStatistic::new(String::from("a"), String::from("y"), 2u32);
    let c = PassStatistic::new(String::from("c"), String::from("x"), 1u32);
    assert!(a == b);
    assert!(a != c);
}

#[test]
fn a_pass_is_nested_where_it_runs() {
    let w = world();
    let mut pm = OpPassManager::for_operation(w.module, Nesting::Implicit);
    pm.add_pass(pass("inline", Some(w.module)));
    pm.add_pass(pass("fold", Some(w.function)));
    pm.add_pass(pass("any", None));
    assert_eq!(pm.len(), 3);
    assert!(!pm.is_op_agnostic());
    assert_eq!(
        pm.print_as_textual_pipeline(&w.interner),
        "builtin.module(inline,builtin.function(fold),any)"
    );
    pm.add_nested_pass(w.function, pass("dce", Some(w.function)));
    pm.add_nested_pass(w.function, pass("sccp", None));
    pm.add_nested_pass(w.function, pass("link", Some(w.module)));
    assert_eq!(pm.len(), 6);
    assert!(pm.print_as_textual_pipeline(&w.interner).ends_with(
        ",builtin.function(dce),builtin.function(sccp),builtin.function(builtin.module(link)))"
    ));
    pm.clear();
    assert!(pm.is_empty());
    assert!(OpPassManager::any(Nesting::Explicit).is_op_agnostic());
    assert_eq!(OpPassManager::any(Nesting::Explicit).print_as_textual_pipeline(&w.interner), "any()");
}

#[test]
fn neighbouring_adaptors_are_merged() {
    let w = world();
    let isolated = IsolatedOps { names: vec![w.module, w.function] };
    let mut pm = OpPassManager::for_operation(w.module, Nesting::Implicit);
    pm.add_pass(pass("a", Some(w.function)));
    pm.add_pass(pass("b", Some(w.function)));
    pm.add_pass(pass("c", Some(w.module)));
    assert!(pm.finalize_pass_list(&isolated).is_ok());
    assert_eq!(
        pm.print_as_textual_pipeline(&w.interner),
        "builtin.module(builtin.function(a,b),c)"
    );
}

#[test]
fn a_pass_must_fit_its_manager() {
    let w = world();
    let isolated = IsolatedOps { names: vec![w.module, w.function] };
    let mut pm = OpPassManager::for_operation(w.module, Nesting::Explicit);
    pm.passes.push(pass("a", Some(w.function)));
    assert!(matches!(pm.finalize_pass_list(&isolated), Err(UnschedulablePass {})));
}

#[test]
fn managers_for_any_operation_are_not_mixed() {
    let w = world();
    let isolated = IsolatedOps { names: vec![w.module, w.function] };
    let mut any = OpPassManager::any(Nesting::Implicit);
    any.add_pass(pass("x", None));
    let mut left = OpToOpPassAdaptor::new(any);
    let mut right = OpToOpPassAdaptor::new(OpPassManager::for_operation(w.function, Nesting::Implicit));
    assert!(!left.try_merge_into(&mut right, &isolated));
    let mut one = OpToOpPassAdaptor::new(OpPassManager::for_operation(w.module, Nesting::Implicit));
    assert!(one.try_merge_into(&mut right, &isolated));
    assert_eq!(right.pass_managers().len(), 2);
    assert!(right.name(&w.interner).contains("builtin.function"));
    assert_eq!(right.manager_for(&w.function, &isolated), right.pms.iter().position(|pm| pm.name == Some(w.function)));
}

#[test]
fn scopes_add_what_was_nested() {
    let w = world();
    let registered = vec![w.module, w.function];
    let mut pm = PassManager::new("builtin.module", Nesting::Explicit, &registered, &w.interner);
    assert!(pm.verification);
    {
        let mut scope = pm.nest_with_type("builtin.function", &registered, &w.interner);
        scope.nested.add_pass(pass("f", Some(w.function)));
        scope.finish();
    }
    {
        let scope = pm.nest_any();
        scope.finish();
    }
    pm.add_nested_pass(w.function, pass("g", Some(w.function)));
    assert_eq!(
        pm.print_as_textual_pipeline(&w.interner),
        "builtin.module(builtin.function(f),any(),builtin.function(g))"
    );
    assert_eq!(find_operation("builtin.function", &registered, &w.interner), Some(w.function));
    assert_eq!(find_operation("builtin.world", &registered, &w.interner), None);
    assert_eq!(find_operation("function", &registered, &w.interner), None);
}

#[test]
fn a_pipeline_runs_on_its_operation() {
    let w = world();
    let isolated = IsolatedOps { names: vec![w.module] };
    let registered = vec![w.module, w.function];
    let mut pm = PassManager::new("builtin.module", Nesting::Explicit, &registered, &w.interner);
    assert_eq!(pm.prepare(&w.function, &isolated), Err(RunError::WrongOperation));
    assert_eq!(pm.prepare(&w.module, &isolated), Ok(()));
    pm.pm.passes.push(pass("a", Some(w.function)));
    assert_eq!(pm.prepare(&w.module, &isolated), Err(RunError::UnschedulablePass));
    assert_eq!(
        check_schedule(&pass("a", Some(w.function)), &w.function, &isolated),
        Err(RunError::NotIsolated)
    );
    assert_eq!(
        check_schedule(&pass("a", Some(w.function)), &w.module, &isolated),
        Err(RunError::UnsupportedOperation)
    );
    assert_eq!(check_schedule(&pass("a", None), &w.module, &isolated), Ok(()));
    pm.enable_timing(true);
    pm.enable_verifier(false);
    pm.enable_statistics(Some(PassDisplayMode::List));
    assert!(pm.timing);
    assert!(!pm.verification);
    assert_eq!(pm.statistics, Some(PassDisplayMode::List));
}

#[test]
fn the_verifier_runs_after_what_changed() {
    let w = world();
    let plain = pass("a", None);
    let adaptor = PassEntry::Adaptor(OpToOpPassAdaptor::new(OpPassManager::for_operation(
        w.function,
        Nesting::Explicit,
    )));
    assert_eq!(verification_after(&plain, true, true, false), Verification::Recursive);
    assert_eq!(verification_after(&plain, true, true, true), Verification::Skip);
    assert_eq!(verification_after(&plain, true, false, false), Verification::Skip);
    assert_eq!(verification_after(&plain, false, true, false), Verification::Skip);
    assert_eq!(verification_after(&adaptor, true, true, false), Verification::Shallow);
}

#[test]
fn two_ways_to_print_exclude_each_other() {
    let all = |after_all: bool, passes: Vec<String>| PrintingOptions {
        print_ir_after_all: after_all,
        print_ir_after_pass: passes,
        print_ir_after_modified: true,
    };
    assert!(matches!(
        IRPrintingConfig::try_from(all(true, vec![String::from("x")])),
        Err(ExclusiveFlags {})
    ));
    let config = IRPrintingConfig::try_from(all(true, Vec::new())).ok().unwrap();
    assert!(config.print_ir_after_all);
    assert!(config.print_ir_after_modified);
}

#[test]
fn statistics_are_reported_by_pass() {
    let w = world();
    let with = |name: &str, n: u32| {
        PassEntry::Pass(PassInfo {
            name: String::from(name),
            target: None,
            text: String::from(name),
            statistics: vec![counter("hits", n)],
        })
    };
    let mut pm = OpPassManager::for_operation(w.module, Nesting::Explicit);
    pm.add_pass(with("zap", 5));
    pm.add_pass(with("fold", 7));
    pm.add_pass(with("zap", 10));
    let report = pm.print_statistics(PassDisplayMode::List);
    assert!(report.contains("... Pass statistics report ..."));
    assert!(report.contains("15 hits"));
    assert!(report.find("fold").unwrap() < report.find("zap").unwrap());
    let mut out = String::new();
    print_pass_entry(&mut out, 0, "p", &vec![counter("b", 1), counter("aa", 10)]);
    assert!(out.find("aa").unwrap() < out.find(" b").unwrap());
    assert!(out.contains("(S) 1  b  - what it counts\n"));
}

fn pipeline(w: &World) -> PassManager {
    let registered = vec![w.module, w.function];
    let mut pm = PassManager::new("builtin.module", Nesting::Implicit, &registered, &w.interner);
    pm.add_pass(pass("a", Some(w.module)));
    pm.add_pass(pass("f", Some(w.function)));
    pm
}

const CHANGED: PassOutcome = PassOutcome { succeeded: true, preserved_all: false };

#[test]
fn passes_run_on_an_operation_and_those_in_it() {
    let w = world();
    let isolated = IsolatedOps { names: vec![w.module, w.function] };
    let mut pm = pipeline(&w);
    let op = OpRef { id: 0, name: w.module };
    let mut host = rehearsal(vec![(op, vec![OpRef { id: 1, name: w.function }])]);
    host.hooks.outcomes = vec![CHANGED, CHANGED];
    assert_eq!(pm.run(op, &isolated, &mut host), Ok(()));
    let expected = vec![
        Note::Initialize,
        Note::Initialize,
        Note::Verify { op: 0, recursive: true },
        Note::BeforePipeline { op: 0, nested: false },
        Note::BeforePass { op: 0 },
        Note::Run { op: 0 },
        Note::Invalidate { op: 0 },
        Note::Verify { op: 0, recursive: true },
        Note::AfterPass { op: 0, succeeded: true },
        Note::BeforePass { op: 0 },
        Note::List { op: 0 },
        Note::Verify { op: 1, recursive: true },
        Note::BeforePipeline { op: 1, nested: true },
        Note::BeforePass { op: 1 },
        Note::Run { op: 1 },
        Note::Invalidate { op: 1 },
        Note::Verify { op: 1, recursive: true },
        Note::AfterPass { op: 1, succeeded: true },
        Note::AfterPipeline,
        Note::Clear { op: 1 },
        Note::Invalidate { op: 0 },
        Note::Verify { op: 0, recursive: false },
        Note::AfterPass { op: 0, succeeded: true },
        Note::AfterPipeline,
        Note::Clear { op: 0 },
    ];
    assert_eq!(host.hooks.notes, expected);
}

#[test]
fn a_failed_pass_ends_the_pipeline() {
    let w = world();
    let isolated = IsolatedOps { names: vec![w.module, w.function] };
    let mut pm = pipeline(&w);
    pm.enable_verifier(false);
    let mut host = rehearsal(Vec::new());
    host.hooks.outcomes = vec![PassOutcome { succeeded: false, preserved_all: false }];
    let op = OpRef { id: 0, name: w.module };
    assert_eq!(pm.run(op, &isolated, &mut host), Err(RunError::PassFailed));
    assert_eq!(
        host.hooks.notes,
        vec![
            Note::Initialize,
            Note::Initialize,
            Note::BeforePipeline { op: 0, nested: false },
            Note::BeforePass { op: 0 },
            Note::Run { op: 0 },
            Note::Invalidate { op: 0 },
            Note::AfterPass { op: 0, succeeded: false },
            Note::Clear { op: 0 },
        ]
    );
}

#[test]
fn an_operation_is_verified_before_passes_run() {
    let w = world();
    let isolated = IsolatedOps { names: vec![w.module, w.function] };
    let op = OpRef { id: 0, name: w.module };
    let mut host = rehearsal(Vec::new());
    host.hooks.valid = false;
    let result = pipeline(&w).run(op, &isolated, &mut host);
    assert_eq!(result, Err(RunError::VerificationFailed));
    assert_eq!(
        host.hooks.notes,
        vec![Note::Initialize, Note::Initialize, Note::Verify { op: 0, recursive: true }]
    );
    let mut host = rehearsal(Vec::new());
    host.hooks.ready = false;
    let result = pipeline(&w).run(op, &isolated, &mut host);
    assert_eq!(result, Err(RunError::InitializationFailed));
    assert_eq!(host.hooks.notes, vec![Note::Initialize]);
    let other = OpRef { id: 1, name: w.function };
    let result = pipeline(&w).run(other, &isolated, &mut rehearsal(Vec::new()));
    assert_eq!(result, Err(RunError::WrongOperation));
    let none = IsolatedOps { names: Vec::new() };
    let result = pipeline(&w).run(op, &none, &mut rehearsal(Vec::new()));
    assert_eq!(result, Err(RunError::NotIsolated));
}

#[test]
fn a_pass_can_run_a_pipeline() {
    let w = world();
    let isolated = IsolatedOps { names: vec![w.module, w.function] };
    let parent = pass("a", Some(w.module));
    let mut pm = OpPassManager::for_operation(w.function, Nesting::Explicit);
    pm.add_pass(pass("f", Some(w.function)));
    let root = OpRef { id: 1, name: w.function };
    let mut host = rehearsal(Vec::new());
    assert_eq!(
        pm.run_dynamic(&parent, root, false, &isolated, false, &mut host),
        Err(RunError::NotNested)
    );
    assert!(host.hooks.notes.is_empty());
    assert_eq!(pm.run_dynamic(&parent, root, true, &isolated, false, &mut host), Ok(()));
    assert_eq!(host.hooks.notes[1], Note::BeforePipeline { op: 1, nested: true });
}

#[test]
fn merging_keeps_every_pass() {
    let w = world();
    let isolated = IsolatedOps { names: vec![w.module, w.function] };
    let adaptor = |first: &str, second: &str| {
        let mut pm = OpPassManager::for_operation(w.function, Nesting::Implicit);
        pm.add_pass(pass(first, Some(w.function)));
        pm.add_pass(pass(second, Some(w.function)));
        OpToOpPassAdaptor::new(pm)
    };
    let mut later = adaptor("c", "d");
    let mut earlier = adaptor("a", "b");
    assert!(later.try_merge_into(&mut earlier, &isolated));
    assert_eq!(later.pms.len(), 0);
    assert_eq!(earlier.pms.len(), 1);
    let names: Vec<String> = earlier.pms[0]
        .passes()
        .iter()
        .map(|entry| match entry {
            PassEntry::Pass(info) => info.name.clone(),
            PassEntry::Adaptor(_) => String::from("adaptor"),
        })
        .collect();
    assert_eq!(names, vec!["a", "b", "c", "d"]);
}

#[test]
fn what_was_merged_is_used_up() {
    let mut list = vec![1u32];
    let mut other = vec![2u32, 3];
    list.merge(&mut other);
    assert_eq!(list, vec![1, 2, 3]);
    assert!(other.is_empty());
    let mut pair = [1u32, 2];
    let mut other = [10u32, 20];
    pair.merge(&mut other);
    assert_eq!(pair, [11, 22]);
    assert_eq!(other, [10, 20]);
}

#[test]
fn statistics_give_their_values() {
    let mut any = counter("steps", 3);
    assert_eq!(any.downcast_ref::<u32>(), Some(&3));
    assert_eq!(any.downcast_ref::<u64>(), None);
    *any.downcast_mut::<u32>().unwrap() = 5;
    assert_eq!(any.downcast_ref::<u32>(), Some(&5));
    assert!(any.downcast_mut::<bool>().is_none());
}

#[test]
fn every_manager_for_any_operation_can_conflict() {
    let w = world();
    let isolated = IsolatedOps { names: vec![w.module, w.function] };
    let mut only_modules = OpPassManager::any(Nesting::Implicit);
    only_modules.passes.push(pass("m", Some(w.module)));
    let mut anything = OpPassManager::any(Nesting::Implicit);
    anything.add_pass(pass("x", None));
    let mut left = OpToOpPassAdaptor::new(only_modules);
    left.pms.push(anything);
    let mut right = OpToOpPassAdaptor::new(OpPassManager::for_operation(w.function, Nesting::Implicit));
    assert!(!left.try_merge_into(&mut right, &isolated));
    assert_eq!(left.pms.len(), 2);
}

fn named<V: StatisticValue>(value: V) -> PassStatistic<V> {
    PassStatistic::new(String::from("s"), String::from(""), value)
}

#[test]
fn statistics_collect_lists_arrays_and_tables() {
    let mut list = AnyStatistic::U64(Collected::List(named(vec![1u64])));
    let mut more = AnyStatistic::U64(Collected::List(named(vec![2u64, 3])));
    assert!(list.try_merge(&mut more).is_ok());
    assert_eq!(list.downcast_ref::<Vec<u64>>(), Some(&vec![1, 2, 3]));
    assert_eq!(list.downcast_ref::<u64>(), None);
    assert_eq!(more.downcast_ref::<Vec<u64>>(), Some(&Vec::new()));
    assert_eq!(list.pretty_print(), "[1, 2, 3]");
    let mut array = AnyStatistic::I8(Collected::Array(named(Lanes { items: vec![1i8, 2] })));
    let mut added = AnyStatistic::I8(Collected::Array(named(Lanes { items: vec![10i8, 120] })));
    let mut longer = AnyStatistic::I8(Collected::Array(named(Lanes { items: vec![0i8, 0, 0] })));
    assert!(array.try_merge(&mut added).is_ok());
    assert!(array.try_merge(&mut longer).is_err());
    assert_eq!(array.duplicate().pretty_print(), "[11, 122]");
    let mut left: Table<bool> = Table::new();
    left.insert(7, false);
    left.insert(2, true);
    let mut right: Table<bool> = Table::new();
    right.insert(7, true);
    let mut table = AnyStatistic::Bool(Collected::Table(named(left)));
    let mut other = AnyStatistic::Bool(Collected::Table(named(right)));
    assert!(table.try_merge(&mut list).is_err());
    assert!(table.try_merge(&mut other).is_ok());
    assert_eq!(table.pretty_print(), "{2: true, 7: true}");
    let values = table.downcast_mut::<Table<bool>>().unwrap();
    assert_eq!(values.get(7), Some(true));
    assert_eq!(values.get(3), None);
    values.insert(3, false);
    assert_eq!(values.len(), 3);
}

#[test]
fn finalizing_keeps_adaptors_that_cannot_be_merged() {
    let w = world();
    let isolated = IsolatedOps { names: vec![w.module, w.function] };
    let mut any = OpPassManager::any(Nesting::Implicit);
    any.add_pass(pass("p", None));
    let mut specific = OpPassManager::for_operation(w.function, Nesting::Implicit);
    specific.add_pass(pass("q", Some(w.function)));
    let mut pm = OpPassManager::for_operation(w.module, Nesting::Explicit);
    pm.passes.push(PassEntry::Adaptor(OpToOpPassAdaptor::new(any)));
    pm.passes.push(PassEntry::Adaptor(OpToOpPassAdaptor::new(specific)));
    assert!(pm.finalize_pass_list(&isolated).is_ok());
    assert_eq!(
        pm.print_as_textual_pipeline(&w.interner),
        "builtin.module(any(p),builtin.function(q))"
    );
}

#[test]
fn the_last_adaptor_is_finalized_too() {
    let w = world();
    let isolated = IsolatedOps { names: vec![w.module, w.function] };
    let inner = |name: &str| {
        let mut pm = OpPassManager::for_operation(w.function, Nesting::Explicit);
        pm.add_pass(pass(name, Some(w.function)));
        PassEntry::Adaptor(OpToOpPassAdaptor::new(pm))
    };
    let mut middle = OpPassManager::for_operation(w.module, Nesting::Explicit);
    middle.passes.push(inner("a"));
    middle.passes.push(inner("b"));
    let mut pm = OpPassManager::for_operation(w.module, Nesting::Explicit);
    pm.passes.push(PassEntry::Adaptor(OpToOpPassAdaptor::new(middle)));
    assert!(pm.finalize_pass_list(&isolated).is_ok());
    assert_eq!(
        pm.print_as_textual_pipeline(&w.interner),
        "builtin.module(builtin.module(builtin.function(a,b)))"
    );
    let mut wrong = OpPassManager::for_operation(w.module, Nesting::Explicit);
    wrong.passes.push(pass("f", Some(w.function)));
    let mut pm = OpPassManager::for_operation(w.module, Nesting::Explicit);
    pm.passes.push(PassEntry::Adaptor(OpToOpPassAdaptor::new(wrong)));
    assert!(pm.finalize_pass_list(&isolated).is_err());
}

#[test]
fn a_pass_that_breaks_an_operation_fails() {
    let w = world();
    let isolated = IsolatedOps { names: vec![w.module] };
    let entry = pass("a", Some(w.module));
    let mut host = rehearsal(Vec::new());
    host.hooks.valid = false;
    host.hooks.outcomes = vec![PassOutcome { succeeded: true, preserved_all: false }];
    let op = OpRef { id: 0, name: w.module };
    let result = OpToOpPassAdaptor::run(&entry, op, &isolated, true, &mut host);
    assert_eq!(result, Err(RunError::VerificationFailed));
    assert_eq!(
        host.hooks.notes,
        vec![
            Note::BeforePass { op: 0 },
            Note::Run { op: 0 },
            Note::Invalidate { op: 0 },
            Note::Verify { op: 0, recursive: true },
            Note::AfterPass { op: 0, succeeded: false },
        ]
    );
}

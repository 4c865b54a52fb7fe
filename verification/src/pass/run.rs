//! How passes run.
use vstd::prelude::*;
use crate::hir::operation::OperationName;
use crate::pass::manager::{
    self, check_schedule, verification_after, PassManager, RunError, Verification,
};
use crate::pass::finalize;
use crate::pass::merge;
use crate::pass::report::{self, push_leaves};
use crate::pass::tree::{
    self, IsolatedOps, ManagerTree, OpPassManager, OpToOpPassAdaptor, PassEntry, PassInfo, PassTree,
};

verus! {

/// An operation that passes run on.
#[derive(Clone, Copy, PartialEq, Eq, Debug, Structural)]
pub struct OpRef {
    pub id: u32,
    pub name: OperationName,
}

/// What came of a pass.
#[derive(Clone, Copy, PartialEq, Eq, Debug, Structural)]
pub struct PassOutcome {
    pub succeeded: bool,
    /// Whether everything that was known of the operation still holds
    pub preserved_all: bool,
}

/// What happens while passes run.
#[allow(inconsistent_fields)]
pub ghost enum Event {
    /// A pass was made ready
    Initialized { pass: PassInfo, succeeded: bool },
    /// An operation was verified, with those in it or alone
    Verified { op: OpRef, recursive: bool, passed: bool },
    /// The passes of a pass manager start, on behalf of a pass or of the user
    PipelineBegan { manager: Option<OperationName>, parent: Option<PassTree>, op: OpRef },
    /// The passes of a pass manager are done
    PipelineEnded { manager: Option<OperationName>, parent: Option<PassTree> },
    /// What was known of an operation is forgotten
    Cleared { op: OpRef },
    PassBegan { pass: PassTree, op: OpRef },
    PassRan { pass: PassInfo, op: OpRef, outcome: PassOutcome },
    /// What the pass did not preserve is forgotten
    Invalidated { op: OpRef },
    PassEnded { pass: PassTree, op: OpRef, succeeded: bool },
    /// The operations in an operation were listed
    Listed { op: OpRef, nested: Seq<OpRef> },
}

/// Where passes run: this is what runs the code of a pass, verifies operations, knows what an
/// operation is made of, and is told what happens.
pub trait PassHost {
    /// What happened so far.
    spec fn log(&self) -> Seq<Event>;

    /// Makes a pass ready.
    fn initialize(&mut self, pass: &PassInfo) -> (succeeded: bool)
        ensures
            final(self).log() == old(self).log().push(Event::Initialized { pass: *pass, succeeded }),
    ;

    /// Verifies an operation, and those in it if `recursive`.
    fn verify(&mut self, op: OpRef, recursive: bool) -> (passed: bool)
        ensures
            final(self).log() == old(self).log().push(Event::Verified { op, recursive, passed }),
    ;

    /// Is told that the passes of a pass manager start.
    fn before_pipeline(
        &mut self,
        manager: Option<OperationName>,
        parent: Option<&PassEntry>,
        op: OpRef,
    )
        ensures
            final(self).log() == old(self).log().push(
                Event::PipelineBegan { manager, parent: parent_tree(parent), op },
            ),
    ;

    /// Is told that the passes of a pass manager are done.
    fn after_pipeline(&mut self, manager: Option<OperationName>, parent: Option<&PassEntry>)
        ensures
            final(self).log() == old(self).log().push(
                Event::PipelineEnded { manager, parent: parent_tree(parent) },
            ),
    ;

    /// Forgets what is known of an operation.
    fn clear(&mut self, op: OpRef)
        ensures
            final(self).log() == old(self).log().push(Event::Cleared { op }),
    ;

    /// Is told that a pass starts.
    fn before_pass(&mut self, pass: &PassEntry, op: OpRef)
        ensures
            final(self).log() == old(self).log().push(
                Event::PassBegan { pass: tree::entry_tree(*pass), op },
            ),
    ;

    /// Runs a pass.
    fn run_pass(&mut self, pass: &PassInfo, op: OpRef) -> (outcome: PassOutcome)
        ensures
            final(self).log() == old(self).log().push(Event::PassRan { pass: *pass, op, outcome }),
    ;

    /// Forgets what the last pass did not preserve.
    fn invalidate(&mut self, op: OpRef)
        ensures
            final(self).log() == old(self).log().push(Event::Invalidated { op }),
    ;

    /// Is told that a pass is done, or has failed.
    fn after_pass(&mut self, pass: &PassEntry, op: OpRef, succeeded: bool)
        ensures
            final(self).log() == old(self).log().push(
                Event::PassEnded { pass: tree::entry_tree(*pass), op, succeeded },
            ),
    ;

    /// The operations in the last region of an operation, block by block.
    fn nested(&mut self, op: OpRef) -> (nested: Vec<OpRef>)
        ensures
            final(self).log() == old(self).log().push(Event::Listed { op, nested: nested@ }),
    ;
}

/// The pass on whose behalf passes run.
pub open spec fn parent_tree(parent: Option<&PassEntry>) -> Option<PassTree> {
    match parent {
        Some(entry) => Some(tree::entry_tree(*entry)),
        None => None,
    }
}

/// How passes are run.
pub ghost struct Settings {
    /// The operations that are isolated
    pub isolated: Seq<OperationName>,
    /// Whether operations are verified
    pub verify: bool,
}

/// The event at a place of the log.
pub open spec fn holds(log: Seq<Event>, at: int, event: Event) -> bool {
    0 <= at < log.len() && log[at] == event
}

/// What the log says, from a place on, of the passes of a pass manager running on an operation:
/// where that ends, and with what result. None if something else happened.
pub open spec fn pipeline_run(
    manager: ManagerTree,
    parent: Option<PassTree>,
    op: OpRef,
    settings: Settings,
    log: Seq<Event>,
    at: int,
) -> Option<(int, Result<(), RunError>)>
    decreases manager, 0int,
{
    let begin = if settings.verify {
        at + 1
    } else {
        at
    };
    if settings.verify && holds(log, at, Event::Verified { op, recursive: true, passed: false }) {
        Some((begin, Err(RunError::VerificationFailed)))
    } else if settings.verify && !holds(
        log,
        at,
        Event::Verified { op, recursive: true, passed: true },
    ) {
        None
    } else if !holds(log, begin, Event::PipelineBegan { manager: manager.name, parent, op }) {
        None
    } else {
        match passes_run(manager.passes, 0, op, settings, log, begin + 1) {
            None => None,
            Some((to, Err(e))) => if holds(log, to, Event::Cleared { op }) {
                Some((to + 1, Err(e)))
            } else {
                None
            },
            Some((to, Ok(_))) => if holds(
                log,
                to,
                Event::PipelineEnded { manager: manager.name, parent },
            ) && holds(log, to + 1, Event::Cleared { op }) {
                Some((to + 2, Ok(())))
            } else {
                None
            },
        }
    }
}

/// What the log says of the passes from number `from` on: they run in order, up to one that fails.
pub open spec fn passes_run(
    passes: Seq<PassTree>,
    from: int,
    op: OpRef,
    settings: Settings,
    log: Seq<Event>,
    at: int,
) -> Option<(int, Result<(), RunError>)>
    decreases passes, passes.len() - from,
{
    if from < 0 || from >= passes.len() {
        Some((at, Ok(())))
    } else {
        match pass_run(passes[from], op, settings, log, at) {
            Some((to, Ok(_))) => passes_run(passes, from + 1, op, settings, log, to),
            other => other,
        }
    }
}

/// What a pass or nested pass managers did: where that ends, with what result, and whether
/// everything was preserved.
pub open spec fn work_done(
    pass: PassTree,
    op: OpRef,
    settings: Settings,
    log: Seq<Event>,
    at: int,
) -> Option<(int, Result<(), RunError>, bool)>
    decreases pass, 0int,
{
    if at < 0 || at >= log.len() {
        None
    } else {
        match (pass, log[at]) {
            (PassTree::Pass(info), Event::PassRan { pass: ran, op: on, outcome }) => if ran == info
                && on == op {
                Some(
                    (
                        at + 1,
                        if outcome.succeeded {
                            Ok(())
                        } else {
                            Err(RunError::PassFailed)
                        },
                        outcome.preserved_all,
                    ),
                )
            } else {
                None
            },
            (PassTree::Adaptor(pms), Event::Listed { op: of, nested }) => if of == op {
                match nested_run(pms, pass, nested, 0, settings, log, at + 1) {
                    Some((to, result)) => Some((to, result, false)),
                    None => None,
                }
            } else {
                None
            },
            _ => None,
        }
    }
}

/// What the log says of a pass running on an operation. The operation must be isolated, and the
/// pass able to run on it. Unless the pass failed or preserved everything, the operation is
/// verified afterwards; those in it are not, if they were verified after nested passes. A pass that
/// leaves an operation that is not valid has failed.
pub open spec fn pass_run(
    pass: PassTree,
    op: OpRef,
    settings: Settings,
    log: Seq<Event>,
    at: int,
) -> Option<(int, Result<(), RunError>)>
    decreases pass, 1int,
{
    if !settings.isolated.contains(op.name) {
        Some((at, Err(RunError::NotIsolated)))
    } else if !merge::runs_on(pass, op.name) {
        Some((at, Err(RunError::UnsupportedOperation)))
    } else if !holds(log, at, Event::PassBegan { pass, op }) {
        None
    } else {
        match work_done(pass, op, settings, log, at + 1) {
            None => None,
            Some((to, result, preserved_all)) => {
                let verified = settings.verify && result is Ok && !preserved_all;
                let recursive = pass is Pass;
                let broken = verified && holds(
                    log,
                    to + 1,
                    Event::Verified { op, recursive, passed: false },
                );
                let outcome = if broken {
                    Err(RunError::VerificationFailed)
                } else {
                    result
                };
                let next = if verified {
                    to + 2
                } else {
                    to + 1
                };
                if holds(log, to, Event::Invalidated { op }) && (verified ==> broken || holds(
                    log,
                    to + 1,
                    Event::Verified { op, recursive, passed: true },
                )) && holds(log, next, Event::PassEnded { pass, op, succeeded: outcome is Ok }) {
                    Some((next + 1, outcome))
                } else {
                    None
                }
            },
        }
    }
}

/// What the log says of pass managers running on operations from number `from` on: on each runs
/// the first that can, if there is one.
pub open spec fn nested_run(
    pms: Seq<ManagerTree>,
    parent: PassTree,
    ops: Seq<OpRef>,
    from: int,
    settings: Settings,
    log: Seq<Event>,
    at: int,
) -> Option<(int, Result<(), RunError>)>
    decreases pms, ops.len() - from,
{
    if from < 0 || from >= ops.len() {
        Some((at, Ok(())))
    } else {
        match manager::chosen_from(pms, ops[from].name, settings.isolated, 0) {
            None => nested_run(pms, parent, ops, from + 1, settings, log, at),
            Some(k) => if k < 0 || k >= pms.len() {
                None
            } else {
                match pipeline_run(pms[k], Some(parent), ops[from], settings, log, at) {
                    Some((to, Ok(_))) => nested_run(
                        pms,
                        parent,
                        ops,
                        from + 1,
                        settings,
                        log,
                        to,
                    ),
                    other => other,
                }
            },
        }
    }
}

/// The log goes on from another one.
pub open spec fn goes_on(more: Seq<Event>, log: Seq<Event>) -> bool {
    more.len() >= log.len() && forall|i: int| 0 <= i < log.len() ==> #[trigger] more[i] == log[i]
}

/// However the log goes on, its part between two logs says that a pipeline ran.
pub open spec fn pipeline_ran(
    manager: ManagerTree,
    parent: Option<PassTree>,
    op: OpRef,
    settings: Settings,
    before: Seq<Event>,
    after: Seq<Event>,
    result: Result<(), RunError>,
) -> bool {
    &&& goes_on(after, before)
    &&& forall|more: Seq<Event>| #[trigger]
        goes_on(more, after) ==> pipeline_run(
            manager,
            parent,
            op,
            settings,
            more,
            before.len() as int,
        ) == Some((after.len() as int, result))
}

/// However the log goes on, its part between two logs says that a pass ran.
pub open spec fn pass_ran(
    pass: PassTree,
    op: OpRef,
    settings: Settings,
    before: Seq<Event>,
    after: Seq<Event>,
    result: Result<(), RunError>,
) -> bool {
    &&& goes_on(after, before)
    &&& forall|more: Seq<Event>| #[trigger]
        goes_on(more, after) ==> pass_run(pass, op, settings, more, before.len() as int) == Some(
            (after.len() as int, result),
        )
}

/// However the log goes on, its part between two logs says that pass managers ran.
pub open spec fn nested_ran(
    pms: Seq<ManagerTree>,
    parent: PassTree,
    ops: Seq<OpRef>,
    settings: Settings,
    before: Seq<Event>,
    after: Seq<Event>,
    result: Result<(), RunError>,
) -> bool {
    &&& goes_on(after, before)
    &&& forall|more: Seq<Event>| #[trigger]
        goes_on(more, after) ==> nested_run(
            pms,
            parent,
            ops,
            0,
            settings,
            more,
            before.len() as int,
        ) == Some((after.len() as int, result))
}

impl OpToOpPassAdaptor {
    /// Runs the passes of a pass manager on an operation, which is verified first.
    pub fn run_pipeline<H: PassHost>(
        pm: &OpPassManager,
        parent: Option<&PassEntry>,
        op: OpRef,
        isolated: &IsolatedOps,
        verify: bool,
        host: &mut H,
    ) -> (result: Result<(), RunError>)
        ensures
            pipeline_ran(
                tree::manager_tree(*pm),
                parent_tree(parent),
                op,
                (Settings { isolated: isolated.names@, verify }),
                old(host).log(),
                final(host).log(),
                result,
            ),
        decreases *pm, 0int,
    {
        let ghost settings = Settings { isolated: isolated.names@, verify };
        let ghost start = host.log();
        let ghost trees = tree::manager_tree(*pm).passes;
        proof {
            tree::manager_tree_is(*pm);
        }
        if verify {
            if !host.verify(op, true) {
                assert forall|more: Seq<Event>| #[trigger] goes_on(more, host.log()) implies holds(
                    more,
                    start.len() as int,
                    Event::Verified { op, recursive: true, passed: false },
                ) by {
                    assert(more[start.len() as int] == host.log()[start.len() as int]);
                }
                return Err(RunError::VerificationFailed);
            }
        }
        host.before_pipeline(pm.name, parent, op);
        let ghost begun = host.log();
        let ghost head = if verify {
            start.push(Event::Verified { op, recursive: true, passed: true })
        } else {
            start
        };
        let mut i: usize = 0;
        while i < pm.passes.len()
            invariant
                i <= pm.passes@.len(),
                trees == tree::entry_trees(pm.passes@),
                trees == tree::manager_tree(*pm).passes,
                tree::manager_tree(*pm).name == pm.name,
                settings == (Settings { isolated: isolated.names@, verify }),
                start == old(host).log(),
                head == if verify {
                    start.push(Event::Verified { op, recursive: true, passed: true })
                } else {
                    start
                },
                begun == head.push(
                    Event::PipelineBegan { manager: pm.name, parent: parent_tree(parent), op },
                ),
                goes_on(host.log(), begun),
                forall|more: Seq<Event>| #[trigger]
                    goes_on(more, host.log()) ==> passes_run(
                        trees,
                        0,
                        op,
                        settings,
                        more,
                        begun.len() as int,
                    ) == passes_run(trees, i as int, op, settings, more, host.log().len() as int),
            decreases pm.passes@.len() - i,
        {
            let ghost current = host.log();
            let done = Self::run(&pm.passes[i], op, isolated, verify, host);
            assert(trees[i as int] == tree::entry_tree(pm.passes@[i as int]));
            proof {
                continued(begun, current, host.log());
                assert forall|more: Seq<Event>| #[trigger] goes_on(more, host.log()) implies goes_on(
                    more,
                    current,
                ) by {
                    continued(current, host.log(), more);
                }
            }
            if let Err(e) = done {
                let ghost last = host.log();
                host.clear(op);
                proof {
                    let now = host.log();
                    continued(begun, last, now);
                    continued(start, begun, now);
                    assert forall|more: Seq<Event>| #[trigger] goes_on(more, now) implies pipeline_run(
                        tree::manager_tree(*pm),
                        parent_tree(parent),
                        op,
                        settings,
                        more,
                        start.len() as int,
                    ) == Some((now.len() as int, Err::<(), _>(e))) by {
                        continued(last, now, more);
                        continued(begun, now, more);
                        head_is_read(more, begun);
                        assert(more[last.len() as int] == now[last.len() as int]);
                    }
                }
                return Err(e);
            }
            i = i + 1;
        }
        let ghost last = host.log();
        host.after_pipeline(pm.name, parent);
        host.clear(op);
        proof {
            let now = host.log();
            continued(begun, last, now);
            continued(start, begun, now);
            assert forall|more: Seq<Event>| #[trigger] goes_on(more, now) implies pipeline_run(
                tree::manager_tree(*pm),
                parent_tree(parent),
                op,
                settings,
                more,
                start.len() as int,
            ) == Some((now.len() as int, Ok::<(), RunError>(()))) by {
                continued(last, now, more);
                continued(begun, now, more);
                head_is_read(more, begun);
                assert(more[last.len() as int] == now[last.len() as int]);
                assert(more[last.len() as int + 1] == now[last.len() as int + 1]);
            }
        }
        Ok(())
    }

    /// Runs a pass on an operation.
    pub fn run<H: PassHost>(
        pass: &PassEntry,
        op: OpRef,
        isolated: &IsolatedOps,
        verify: bool,
        host: &mut H,
    ) -> (result: Result<(), RunError>)
        ensures
            pass_ran(
                tree::entry_tree(*pass),
                op,
                (Settings { isolated: isolated.names@, verify }),
                old(host).log(),
                final(host).log(),
                result,
            ),
        decreases *pass, 1int,
    {
        let ghost settings = Settings { isolated: isolated.names@, verify };
        let ghost start = host.log();
        let ghost seen = tree::entry_tree(*pass);
        match check_schedule(pass, &op.name, isolated) {
            Err(e) => {
                return Err(e);
            },
            Ok(_) => {},
        }
        host.before_pass(pass, op);
        let ghost begun = host.log();
        let (result, preserved_all) = match pass {
            PassEntry::Pass(info) => {
                let outcome = host.run_pass(info, op);
                let result = if outcome.succeeded {
                    Ok(())
                } else {
                    Err(RunError::PassFailed)
                };
                (result, outcome.preserved_all)
            },
            PassEntry::Adaptor(adaptor) => {
                proof {
                    tree::adaptor_tree_is(*adaptor);
                }
                (adaptor.run_on_operation(pass, op, isolated, verify, host), false)
            },
        };
        let ghost worked = host.log();
        host.invalidate(op);
        let valid = match verification_after(pass, verify, result.is_ok(), preserved_all) {
            Verification::Skip => true,
            Verification::Shallow => host.verify(op, false),
            Verification::Recursive => host.verify(op, true),
        };
        let outcome = if valid {
            result
        } else {
            Err(RunError::VerificationFailed)
        };
        host.after_pass(pass, op, outcome.is_ok());
        proof {
            let now = host.log();
            assert(goes_on(now, worked));
            continued(begun, worked, now);
            continued(start, begun, now);
            assert forall|more: Seq<Event>| #[trigger] goes_on(more, now) implies pass_run(
                seen,
                op,
                settings,
                more,
                start.len() as int,
            ) == Some((now.len() as int, outcome)) by {
                continued(worked, now, more);
                continued(begun, now, more);
                assert(more[start.len() as int] == begun[start.len() as int]);
                assert(more[begun.len() as int] == worked[begun.len() as int]);
                assert(more[worked.len() as int] == now[worked.len() as int]);
                assert(more[worked.len() as int + 1] == now[worked.len() as int + 1]);
                assert(now.len() == worked.len() + 3 ==> more[worked.len() as int + 2]
                    == now[worked.len() as int + 2]);
                assert(work_done(seen, op, settings, more, begun.len() as int) == Some(
                    (worked.len() as int, result, preserved_all),
                ));
            }
        }
        outcome
    }

    /// Runs the pass managers of an adaptor on the operations in an operation.
    pub fn run_on_operation<H: PassHost>(
        &self,
        itself: &PassEntry,
        op: OpRef,
        isolated: &IsolatedOps,
        verify: bool,
        host: &mut H,
    ) -> (result: Result<(), RunError>)
        requires
            *itself == PassEntry::Adaptor(*self),
        ensures
            goes_on(final(host).log(), old(host).log()),
            final(host).log().len() > old(host).log().len(),
            final(host).log()[old(host).log().len() as int] matches Event::Listed {
                op: of,
                nested,
            } && of == op && nested_ran(
                tree::manager_trees(self.pms@),
                tree::entry_tree(*itself),
                nested,
                (Settings { isolated: isolated.names@, verify }),
                old(host).log().push(Event::Listed { op, nested }),
                final(host).log(),
                result,
            ),
        decreases *itself, 0int,
    {
        let ghost settings = Settings { isolated: isolated.names@, verify };
        let ghost start = host.log();
        let ghost trees = tree::manager_trees(self.pms@);
        let ghost parent = tree::entry_tree(*itself);
        let ops = host.nested(op);
        let ghost begun = host.log();
        let mut i: usize = 0;
        while i < ops.len()
            invariant
                i <= ops@.len(),
                *itself == PassEntry::Adaptor(*self),
                parent == tree::entry_tree(*itself),
                trees == tree::manager_trees(self.pms@),
                settings == (Settings { isolated: isolated.names@, verify }),
                goes_on(host.log(), begun),
                start == old(host).log(),
                begun == start.push(Event::Listed { op, nested: ops@ }),
                forall|more: Seq<Event>| #[trigger]
                    goes_on(more, host.log()) ==> nested_run(
                        trees,
                        parent,
                        ops@,
                        0,
                        settings,
                        more,
                        begun.len() as int,
                    ) == nested_run(
                        trees,
                        parent,
                        ops@,
                        i as int,
                        settings,
                        more,
                        host.log().len() as int,
                    ),
            decreases ops@.len() - i,
        {
            let ghost current = host.log();
            let inner = ops[i];
            if let Some(k) = self.manager_for(&inner.name, isolated) {
                let done = Self::run_pipeline(
                    &self.pms[k],
                    Some(itself),
                    inner,
                    isolated,
                    verify,
                    host,
                );
                assert(trees[k as int] == tree::manager_tree(self.pms@[k as int]));
                proof {
                    continued(begun, current, host.log());
                    assert forall|more: Seq<Event>| #[trigger] goes_on(
                        more,
                        host.log(),
                    ) implies goes_on(more, current) by {
                        continued(current, host.log(), more);
                    }
                }
                if let Err(e) = done {
                    proof {
                        let now = host.log();
                        continued(start, begun, now);
                        assert(now[start.len() as int] == begun[start.len() as int]);
                    }
                    return Err(e);
                }
            }
            i = i + 1;
        }
        proof {
            continued(start, begun, host.log());
        }
        assert(host.log()[start.len() as int] == begun[start.len() as int]);
        Ok(())
    }
}

proof fn continued(first: Seq<Event>, second: Seq<Event>, third: Seq<Event>)
    requires
        goes_on(second, first),
        goes_on(third, second),
    ensures
        goes_on(third, first),
{
    assert forall|i: int| 0 <= i < first.len() implies #[trigger] third[i] == first[i] by {
        assert(third[i] == second[i]);
    }
}

proof fn head_is_read(more: Seq<Event>, begun: Seq<Event>)
    requires
        goes_on(more, begun),
        begun.len() > 0,
    ensures
        more[begun.len() - 1] == begun[begun.len() - 1],
        begun.len() > 1 ==> more[begun.len() - 2] == begun[begun.len() - 2],
{
}

/// What the log says of passes from number `from` on being made ready: that is done in order, up
/// to one that fails. Where that ends, and whether none failed.
pub open spec fn made_ready(passes: Seq<PassInfo>, from: int, log: Seq<Event>, at: int) -> Option<
    (int, bool),
>
    decreases passes.len() - from,
{
    if from < 0 || from >= passes.len() {
        Some((at, true))
    } else if holds(log, at, Event::Initialized { pass: passes[from], succeeded: true }) {
        made_ready(passes, from + 1, log, at + 1)
    } else if holds(log, at, Event::Initialized { pass: passes[from], succeeded: false }) {
        Some((at + 1, false))
    } else {
        None
    }
}

/// What the log says of a pass manager being run: first its passes are made ready, and those of
/// the pass managers nested in it.
pub open spec fn manager_run(
    manager: ManagerTree,
    parent: Option<PassTree>,
    op: OpRef,
    settings: Settings,
    log: Seq<Event>,
    at: int,
) -> Option<(int, Result<(), RunError>)> {
    match made_ready(report::leaves(manager), 0, log, at) {
        None => None,
        Some((to, false)) => Some((to, Err(RunError::InitializationFailed))),
        Some((to, true)) => pipeline_run(manager, parent, op, settings, log, to),
    }
}

/// However the log goes on, its part between two logs says that a pass manager was run.
pub open spec fn manager_ran(
    manager: ManagerTree,
    parent: Option<PassTree>,
    op: OpRef,
    settings: Settings,
    before: Seq<Event>,
    after: Seq<Event>,
    result: Result<(), RunError>,
) -> bool {
    &&& goes_on(after, before)
    &&& forall|more: Seq<Event>| #[trigger]
        goes_on(more, after) ==> manager_run(
            manager,
            parent,
            op,
            settings,
            more,
            before.len() as int,
        ) == Some((after.len() as int, result))
}

/// However the log goes on, its part between two logs says that passes were made ready.
pub open spec fn readied(
    passes: Seq<PassInfo>,
    before: Seq<Event>,
    after: Seq<Event>,
    succeeded: bool,
) -> bool {
    &&& goes_on(after, before)
    &&& forall|more: Seq<Event>| #[trigger]
        goes_on(more, after) ==> made_ready(passes, 0, more, before.len() as int) == Some(
            (after.len() as int, succeeded),
        )
}

impl OpPassManager {
    /// Makes the passes ready, and those of the pass managers nested in this one.
    pub fn initialize<H: PassHost>(&self, host: &mut H) -> (result: Result<(), RunError>)
        ensures
            readied(
                report::leaves(tree::manager_tree(*self)),
                old(host).log(),
                final(host).log(),
                result is Ok,
            ),
            result matches Err(e) ==> e == RunError::InitializationFailed,
    {
        let mut list: Vec<&PassInfo> = Vec::new();
        push_leaves(self, &mut list);
        let ghost passes = report::leaves(tree::manager_tree(*self));
        assert(report::referred(list@) =~= passes);
        let ghost start = host.log();
        let mut i: usize = 0;
        while i < list.len()
            invariant
                i <= list@.len(),
                report::referred(list@) == passes,
                passes == report::leaves(tree::manager_tree(*self)),
                start == old(host).log(),
                goes_on(host.log(), start),
                forall|more: Seq<Event>| #[trigger]
                    goes_on(more, host.log()) ==> made_ready(passes, 0, more, start.len() as int)
                        == made_ready(passes, i as int, more, host.log().len() as int),
            decreases list@.len() - i,
        {
            let ghost current = host.log();
            let succeeded = host.initialize(list[i]);
            assert(passes[i as int] == *list@[i as int]);
            proof {
                let now = host.log();
                continued(start, current, now);
                assert forall|more: Seq<Event>| #[trigger] goes_on(more, now) implies goes_on(
                    more,
                    current,
                ) && more[current.len() as int] == now[current.len() as int] by {
                    continued(current, now, more);
                }
            }
            if !succeeded {
                return Err(RunError::InitializationFailed);
            }
            i = i + 1;
        }
        Ok(())
    }

    fn initialize_and_run<H: PassHost>(
        &self,
        parent: Option<&PassEntry>,
        op: OpRef,
        isolated: &IsolatedOps,
        verify: bool,
        host: &mut H,
    ) -> (result: Result<(), RunError>)
        ensures
            manager_ran(
                tree::manager_tree(*self),
                parent_tree(parent),
                op,
                (Settings { isolated: isolated.names@, verify }),
                old(host).log(),
                final(host).log(),
                result,
            ),
    {
        let ghost start = host.log();
        match self.initialize(host) {
            Err(e) => {
                return Err(e);
            },
            Ok(_) => {},
        }
        let ghost ready = host.log();
        let result = OpToOpPassAdaptor::run_pipeline(self, parent, op, isolated, verify, host);
        proof {
            let now = host.log();
            continued(start, ready, now);
            assert forall|more: Seq<Event>| #[trigger] goes_on(more, now) implies goes_on(
                more,
                ready,
            ) by {
                continued(ready, now, more);
            }
        }
        result
    }

    /// Runs this pass manager on an operation on behalf of a pass that is running. The operation
    /// must be in the one that the pass runs on. The list of passes is finalized first.
    pub fn run_dynamic<H: PassHost>(
        &mut self,
        parent: &PassEntry,
        root: OpRef,
        is_nested: bool,
        isolated: &IsolatedOps,
        verify: bool,
        host: &mut H,
    ) -> (result: Result<(), RunError>)
        requires
            is_nested ==> merge::manages(
                tree::manager_tree(*old(self)),
                root.name,
                isolated.names@,
            ),
        ensures
            if !is_nested {
                &&& result == Err::<(), _>(RunError::NotNested)
                &&& *final(self) == *old(self)
                &&& final(host).log() == old(host).log()
            } else {
                match finalize::finalized(tree::manager_tree(*old(self)), isolated.names@) {
                    None => {
                        &&& result == Err::<(), _>(RunError::UnschedulablePass)
                        &&& final(host).log() == old(host).log()
                    },
                    Some(after) => {
                        &&& tree::manager_tree(*final(self)) == after
                        &&& manager_ran(
                            after,
                            Some(tree::entry_tree(*parent)),
                            root,
                            (Settings { isolated: isolated.names@, verify }),
                            old(host).log(),
                            final(host).log(),
                            result,
                        )
                    },
                }
            },
    {
        if !is_nested {
            return Err(RunError::NotNested);
        }
        if self.finalize_pass_list(isolated).is_err() {
            return Err(RunError::UnschedulablePass);
        }
        self.initialize_and_run(Some(parent), root, isolated, verify, host)
    }
}

impl PassManager {
    /// Runs the passes on an operation, which must be the one that the pass manager is for. The
    /// list of passes is finalized first.
    pub fn run<H: PassHost>(&mut self, op: OpRef, isolated: &IsolatedOps, host: &mut H) -> (result:
        Result<(), RunError>)
        ensures
            final(self).statistics == old(self).statistics,
            final(self).timing == old(self).timing,
            final(self).verification == old(self).verification,
            if old(self).pm.name matches Some(anchor) && anchor != op.name {
                &&& result == Err::<(), _>(RunError::WrongOperation)
                &&& final(self).pm == old(self).pm
                &&& final(host).log() == old(host).log()
            } else {
                match finalize::finalized(tree::manager_tree(old(self).pm), isolated.names@) {
                    None => {
                        &&& result == Err::<(), _>(RunError::UnschedulablePass)
                        &&& final(host).log() == old(host).log()
                    },
                    Some(after) => {
                        &&& tree::manager_tree(final(self).pm) == after
                        &&& manager_ran(
                            after,
                            None,
                            op,
                            (Settings {
                                isolated: isolated.names@,
                                verify: old(self).verification,
                            }),
                            old(host).log(),
                            final(host).log(),
                            result,
                        )
                    },
                }
            },
    {
        match self.prepare(&op.name, isolated) {
            Err(e) => {
                return Err(e);
            },
            Ok(_) => {},
        }
        self.pm.initialize_and_run(None, op, isolated, self.verification, host)
    }
}

/// What the surroundings of passes do: they run the code of a pass, verify operations, know what an
/// operation is made of, and are told what happens.
pub trait PassHooks {
    /// Makes a pass ready; false if that fails.
    fn initialize(&mut self, pass: &PassInfo) -> bool;

    /// Verifies an operation, and those in it if `recursive`; false if it is not valid.
    fn verify(&mut self, op: OpRef, recursive: bool) -> bool;

    /// Is told that the passes of a pass manager start.
    fn before_pipeline(
        &mut self,
        manager: Option<OperationName>,
        parent: Option<&PassEntry>,
        op: OpRef,
    );

    /// Is told that the passes of a pass manager are done.
    fn after_pipeline(&mut self, manager: Option<OperationName>, parent: Option<&PassEntry>);

    /// Forgets what is known of an operation.
    fn clear(&mut self, op: OpRef);

    /// Is told that a pass starts.
    fn before_pass(&mut self, pass: &PassEntry, op: OpRef);

    /// Runs a pass.
    fn run_pass(&mut self, pass: &PassInfo, op: OpRef) -> PassOutcome;

    /// Forgets what the last pass did not preserve.
    fn invalidate(&mut self, op: OpRef);

    /// Is told that a pass is done, or has failed.
    fn after_pass(&mut self, pass: &PassEntry, op: OpRef, succeeded: bool);

    /// The operations in the last region of an operation, block by block.
    fn nested(&mut self, op: OpRef) -> Vec<OpRef>;
}

/// Surroundings of passes, with a record of what happens.
pub struct Recorder<H> {
    pub hooks: H,
    /// What happened so far
    pub record: Ghost<Seq<Event>>,
}

impl<H: PassHooks> Recorder<H> {
    /// Nothing happened yet.
    pub fn new(hooks: H) -> (recorder: Recorder<H>)
        ensures
            recorder.hooks == hooks,
            recorder.log() == Seq::<Event>::empty(),
    {
        Recorder { hooks, record: Ghost(Seq::empty()) }
    }
}

impl<H: PassHooks> PassHost for Recorder<H> {
    open spec fn log(&self) -> Seq<Event> {
        self.record@
    }

    fn initialize(&mut self, pass: &PassInfo) -> (succeeded: bool) {
        let succeeded = self.hooks.initialize(pass);
        self.record = Ghost(self.record@.push(Event::Initialized { pass: *pass, succeeded }));
        succeeded
    }

    fn verify(&mut self, op: OpRef, recursive: bool) -> (passed: bool) {
        let passed = self.hooks.verify(op, recursive);
        self.record = Ghost(self.record@.push(Event::Verified { op, recursive, passed }));
        passed
    }

    fn before_pipeline(
        &mut self,
        manager: Option<OperationName>,
        parent: Option<&PassEntry>,
        op: OpRef,
    ) {
        self.hooks.before_pipeline(manager, parent, op);
        self.record = Ghost(
            self.record@.push(Event::PipelineBegan { manager, parent: parent_tree(parent), op }),
        );
    }

    fn after_pipeline(&mut self, manager: Option<OperationName>, parent: Option<&PassEntry>) {
        self.hooks.after_pipeline(manager, parent);
        self.record = Ghost(
            self.record@.push(Event::PipelineEnded { manager, parent: parent_tree(parent) }),
        );
    }

    fn clear(&mut self, op: OpRef) {
        self.hooks.clear(op);
        self.record = Ghost(self.record@.push(Event::Cleared { op }));
    }

    fn before_pass(&mut self, pass: &PassEntry, op: OpRef) {
        self.hooks.before_pass(pass, op);
        self.record = Ghost(
            self.record@.push(Event::PassBegan { pass: tree::entry_tree(*pass), op }),
        );
    }

    fn run_pass(&mut self, pass: &PassInfo, op: OpRef) -> (outcome: PassOutcome) {
        let outcome = self.hooks.run_pass(pass, op);
        self.record = Ghost(self.record@.push(Event::PassRan { pass: *pass, op, outcome }));
        outcome
    }

    fn invalidate(&mut self, op: OpRef) {
        self.hooks.invalidate(op);
        self.record = Ghost(self.record@.push(Event::Invalidated { op }));
    }

    fn after_pass(&mut self, pass: &PassEntry, op: OpRef, succeeded: bool) {
        self.hooks.after_pass(pass, op, succeeded);
        self.record = Ghost(
            self.record@.push(Event::PassEnded { pass: tree::entry_tree(*pass), op, succeeded }),
        );
    }

    fn nested(&mut self, op: OpRef) -> (nested: Vec<OpRef>) {
        let nested = self.hooks.nested(op);
        self.record = Ghost(self.record@.push(Event::Listed { op, nested: nested@ }));
        nested
    }
}

proof fn pipeline_goes_forward(
    manager: ManagerTree,
    parent: Option<PassTree>,
    op: OpRef,
    settings: Settings,
    log: Seq<Event>,
    at: int,
)
    ensures
        pipeline_run(manager, parent, op, settings, log, at) matches Some((to, _)) ==> to >= at,
    decreases manager, 0int,
{
    passes_go_forward(manager.passes, 0, op, settings, log, at + 1);
    passes_go_forward(manager.passes, 0, op, settings, log, at + 2);
}

proof fn passes_go_forward(
    passes: Seq<PassTree>,
    from: int,
    op: OpRef,
    settings: Settings,
    log: Seq<Event>,
    at: int,
)
    ensures
        passes_run(passes, from, op, settings, log, at) matches Some((to, _)) ==> to >= at,
    decreases passes, passes.len() - from,
{
    if 0 <= from < passes.len() {
        pass_goes_forward(passes[from], op, settings, log, at);
        if let Some((to, Ok(_))) = pass_run(passes[from], op, settings, log, at) {
            passes_go_forward(passes, from + 1, op, settings, log, to);
        }
    }
}

proof fn pass_goes_forward(
    pass: PassTree,
    op: OpRef,
    settings: Settings,
    log: Seq<Event>,
    at: int,
)
    ensures
        pass_run(pass, op, settings, log, at) matches Some((to, _)) ==> to >= at,
    decreases pass, 1int,
{
    if 0 <= at + 1 < log.len() {
        if let PassTree::Adaptor(pms) = pass {
            if let Event::Listed { op: of, nested } = log[at + 1] {
                nested_goes_forward(pms, pass, nested, 0, settings, log, at + 2);
            }
        }
    }
}

proof fn nested_goes_forward(
    pms: Seq<ManagerTree>,
    parent: PassTree,
    ops: Seq<OpRef>,
    from: int,
    settings: Settings,
    log: Seq<Event>,
    at: int,
)
    ensures
        nested_run(pms, parent, ops, from, settings, log, at) matches Some((to, _)) ==> to >= at,
    decreases pms, ops.len() - from,
{
    if 0 <= from < ops.len() {
        match manager::chosen_from(pms, ops[from].name, settings.isolated, 0) {
            None => {
                nested_goes_forward(pms, parent, ops, from + 1, settings, log, at);
            },
            Some(k) => {
                if 0 <= k < pms.len() {
                    pipeline_goes_forward(pms[k], Some(parent), ops[from], settings, log, at);
                    if let Some((to, Ok(_))) = pipeline_run(
                        pms[k],
                        Some(parent),
                        ops[from],
                        settings,
                        log,
                        at,
                    ) {
                        nested_goes_forward(pms, parent, ops, from + 1, settings, log, to);
                    }
                }
            },
        }
    }
}

/// When passes run to the end, every one of them was run, and those that are no adaptors succeeded.
pub proof fn every_pass_ran(
    passes: Seq<PassTree>,
    from: int,
    op: OpRef,
    settings: Settings,
    log: Seq<Event>,
    at: int,
    i: int,
)
    requires
        0 <= from <= i < passes.len(),
        passes_run(passes, from, op, settings, log, at) matches Some((_, Ok(_))),
    ensures
        exists|k: int| at <= k && #[trigger] holds(log, k, Event::PassBegan { pass: passes[i], op }),
        passes[i] matches PassTree::Pass(info) ==> exists|k: int, outcome: PassOutcome|
            at <= k && outcome.succeeded && #[trigger] holds(
                log,
                k,
                Event::PassRan { pass: info, op, outcome },
            ),
    decreases i - from,
{
    pass_goes_forward(passes[from], op, settings, log, at);
    match pass_run(passes[from], op, settings, log, at) {
        Some((to, Ok(_))) => {
            if from == i {
                assert(holds(log, at, Event::PassBegan { pass: passes[i], op }));
                if let (PassTree::Pass(info), Event::PassRan { pass, op, outcome }) = (
                    passes[i],
                    log[at + 1],
                ) {
                    assert(holds(log, at + 1, Event::PassRan { pass: info, op, outcome }));
                }
            } else {
                every_pass_ran(passes, from + 1, op, settings, log, to, i);
            }
        },
        _ => {},
    }
}

/// When pass managers run to the end on operations, on each operation that one of them can run on,
/// the passes of the first that can have run to the end.
pub proof fn every_operation_is_visited(
    pms: Seq<ManagerTree>,
    parent: PassTree,
    ops: Seq<OpRef>,
    from: int,
    settings: Settings,
    log: Seq<Event>,
    at: int,
    i: int,
)
    requires
        0 <= from <= i < ops.len(),
        nested_run(pms, parent, ops, from, settings, log, at) matches Some((_, Ok(_))),
        manager::chosen_from(pms, ops[i].name, settings.isolated, 0) is Some,
    ensures
        manager::chosen_from(pms, ops[i].name, settings.isolated, 0) matches Some(k) ==> exists|s: int|
            at <= s && (#[trigger] pipeline_run(
                pms[k],
                Some(parent),
                ops[i],
                settings,
                log,
                s,
            ) matches Some((_, Ok(_)))),
    decreases i - from,
{
    match manager::chosen_from(pms, ops[from].name, settings.isolated, 0) {
        None => {
            every_operation_is_visited(pms, parent, ops, from + 1, settings, log, at, i);
        },
        Some(k) => {
            pipeline_goes_forward(pms[k], Some(parent), ops[from], settings, log, at);
            if from < i {
                if let Some((to, Ok(_))) = pipeline_run(
                    pms[k],
                    Some(parent),
                    ops[from],
                    settings,
                    log,
                    at,
                ) {
                    every_operation_is_visited(pms, parent, ops, from + 1, settings, log, to, i);
                }
            }
        },
    }
}

/// When passes do not run to the end, one of them is to blame, and none after it was run: what the
/// log says of the passes up to that one is all that it says of them.
pub proof fn a_failure_is_the_end(
    passes: Seq<PassTree>,
    from: int,
    op: OpRef,
    settings: Settings,
    log: Seq<Event>,
    at: int,
)
    requires
        0 <= from <= passes.len(),
        passes_run(passes, from, op, settings, log, at) matches Some((_, Err(_))),
    ensures
        exists|i: int|
            from <= i < passes.len() && #[trigger] passes_run(
                passes.take(i + 1),
                from,
                op,
                settings,
                log,
                at,
            ) == passes_run(passes, from, op, settings, log, at),
    decreases passes.len() - from,
{
    match pass_run(passes[from], op, settings, log, at) {
        Some((to, Ok(_))) => {
            a_failure_is_the_end(passes, from + 1, op, settings, log, to);
            let i = choose|i: int|
                from + 1 <= i < passes.len() && #[trigger] passes_run(
                    passes.take(i + 1),
                    from + 1,
                    op,
                    settings,
                    log,
                    to,
                ) == passes_run(passes, from + 1, op, settings, log, to);
            assert(passes.take(i + 1)[from] == passes[from]);
            assert(passes_run(passes.take(i + 1), from, op, settings, log, at) == passes_run(
                passes,
                from,
                op,
                settings,
                log,
                at,
            ));
        },
        _ => {
            assert(passes.take(from + 1)[from] == passes[from]);
            assert(passes_run(passes.take(from + 1), from, op, settings, log, at) == passes_run(
                passes,
                from,
                op,
                settings,
                log,
                at,
            ));
        },
    }
}

} // verus!

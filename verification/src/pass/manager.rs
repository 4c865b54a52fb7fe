//! Pass managers.
use vstd::prelude::*;
use vstd::string::*;
use crate::hir::operation::OperationName;
use crate::pass::finalize::UnschedulablePass;
use crate::pass::finalize;
use crate::pass::merge::{self, show_anchor};
use crate::pass::tree::{
    self, IsolatedOps, ManagerTree, Nesting, OpPassManager, OpToOpPassAdaptor, PassEntry, PassTree,
};
use crate::symbol::Interner;
use crate::text::{self, chars_of, find_from, same_text, substring};

verus! {

/// How statistics are displayed.
#[derive(Clone, Copy, PartialEq, Eq, Debug, Structural)]
pub enum PassDisplayMode {
    List,
    Pipeline,
}

impl Default for PassDisplayMode {
    fn default() -> (mode: Self)
        ensures
            mode == PassDisplayMode::Pipeline,
    {
        PassDisplayMode::Pipeline
    }
}

/// What the user wants to see of the intermediate representation.
pub struct PrintingOptions {
    pub print_ir_after_all: bool,
    pub print_ir_after_pass: Vec<String>,
    pub print_ir_after_modified: bool,
}

/// When the intermediate representation is printed.
pub struct IRPrintingConfig {
    pub print_module_scope: bool,
    pub print_after_only_on_failure: bool,
    pub print_ir_after_all: bool,
    pub print_ir_after_pass: Vec<String>,
    pub print_ir_after_modified: bool,
}

/// The representation is to be printed after all passes, and after some of them only.
#[derive(Clone, Copy, PartialEq, Eq, Debug, Structural)]
pub struct ExclusiveFlags {}

impl IRPrintingConfig {
    /// The configuration for what the user wants. Printing after all passes and printing after
    /// given ones exclude each other.
    pub fn try_from(options: PrintingOptions) -> (config: Result<Self, ExclusiveFlags>)
        ensures
            match config {
                Ok(config) => {
                    &&& !(options.print_ir_after_all && options.print_ir_after_pass@.len() > 0)
                    &&& config.print_ir_after_all == options.print_ir_after_all
                    &&& config.print_ir_after_pass == options.print_ir_after_pass
                    &&& config.print_ir_after_modified == options.print_ir_after_modified
                    &&& !config.print_module_scope
                    &&& !config.print_after_only_on_failure
                },
                Err(_) => options.print_ir_after_all && options.print_ir_after_pass@.len() > 0,
            },
    {
        if options.print_ir_after_all && options.print_ir_after_pass.len() > 0 {
            return Err(ExclusiveFlags {  });
        }
        Ok(
            IRPrintingConfig {
                print_module_scope: false,
                print_after_only_on_failure: false,
                print_ir_after_all: options.print_ir_after_all,
                print_ir_after_pass: options.print_ir_after_pass,
                print_ir_after_modified: options.print_ir_after_modified,
            },
        )
    }
}

/// The first of the registered operations, from `from` on, with the given dialect and name.
pub open spec fn registered_from(
    dialect: Seq<char>,
    opcode: Seq<char>,
    registered: Seq<OperationName>,
    interner: &Interner,
    from: int,
) -> Option<OperationName>
    decreases registered.len() - from,
{
    if from < 0 || from >= registered.len() {
        None
    } else if interner.text(registered[from].dialect) == dialect && interner.text(
        registered[from].opcode,
    ) == opcode {
        Some(registered[from])
    } else {
        registered_from(dialect, opcode, registered, interner, from + 1)
    }
}

/// The registered operation that `name` names, in the form `<dialect>.<name>`.
pub open spec fn operation_called(
    name: Seq<char>,
    registered: Seq<OperationName>,
    interner: &Interner,
) -> Option<OperationName> {
    match text::place_from(name, "."@, 0) {
        Some(at) => registered_from(name.take(at), name.skip(at + 1), registered, interner, 0),
        None => None,
    }
}

/// The registered operation that `name` names, in the form `<dialect>.<name>`.
pub fn find_operation(name: &str, registered: &Vec<OperationName>, interner: &Interner) -> (found:
    Option<OperationName>)
    requires
        forall|i: int| 0 <= i < registered@.len() ==> (#[trigger] registered@[i]).known(interner),
    ensures
        found == operation_called(name@, registered@, interner),
{
    let chars = chars_of(name);
    let dot = chars_of(".");
    proof {
        reveal_strlit(".");
    }
    match find_from(&chars, &dot, 0) {
        None => None,
        Some(at) => {
            let len: usize = chars.len();
            let dialect = substring(&chars, 0, at);
            let opcode = substring(&chars, at + 1, len);
            assert(dialect@ =~= name@.take(at as int));
            assert(opcode@ =~= name@.skip(at + 1));
            let mut i: usize = 0;
            while i < registered.len()
                invariant
                    i <= registered@.len(),
                    forall|i: int|
                        0 <= i < registered@.len() ==> (#[trigger] registered@[i]).known(interner),
                    operation_called(name@, registered@, interner) == registered_from(
                        dialect@,
                        opcode@,
                        registered@,
                        interner,
                        i as int,
                    ),
                decreases registered@.len() - i,
            {
                let op = registered[i];
                assert(registered@[i as int].known(interner));
                if same_text(interner.as_str(op.dialect), dialect.as_str()) && same_text(
                    interner.as_str(op.opcode),
                    opcode.as_str(),
                ) {
                    return Some(op);
                }
                i = i + 1;
            }
            None
        },
    }
}

impl PassEntry {
    /// The operation that the pass runs on, if it does not run on any.
    pub open spec fn runs_only_on(self) -> Option<OperationName> {
        match self {
            PassEntry::Pass(info) => info.target,
            PassEntry::Adaptor(_) => None,
        }
    }

    /// The operation that the pass runs on, if it does not run on any.
    pub fn target_name(&self) -> (name: Option<OperationName>)
        ensures
            name == self.runs_only_on(),
    {
        match self {
            PassEntry::Pass(info) => info.target,
            PassEntry::Adaptor(_) => None,
        }
    }
}

/// An entry that holds one pass manager.
pub open spec fn wraps(entry: PassEntry, name: Option<OperationName>, nesting: Nesting, passes: Seq<
    PassEntry,
>) -> bool {
    entry matches PassEntry::Adaptor(adaptor) && adaptor.pms@.len() == 1 && adaptor.pms@[0].name
        == name && adaptor.pms@[0].nesting == nesting && adaptor.pms@[0].passes@ == passes
}

/// An entry that holds one pass manager for the operation `name`, which holds the pass. If the pass
/// runs on another operation, it is in one for that operation there.
pub open spec fn nests(
    entry: PassEntry,
    name: OperationName,
    nesting: Nesting,
    pass: PassEntry,
) -> bool {
    let target = pass.runs_only_on();
    if target is Some && target != Some(name) {
        entry matches PassEntry::Adaptor(adaptor) && adaptor.pms@.len() == 1 && adaptor.pms@[0].name
            == Some(name) && adaptor.pms@[0].nesting == nesting && adaptor.pms@[0].passes@.len()
            == 1 && wraps(adaptor.pms@[0].passes@[0], target, nesting, seq![pass])
    } else {
        wraps(entry, Some(name), nesting, seq![pass])
    }
}

/// The name that stands for any operation.
pub const ANY: &'static str = "any";

impl OpPassManager {
    /// A pass manager for any operation.
    pub fn any(nesting: Nesting) -> (pm: Self)
        ensures
            pm.name is None,
            pm.passes@.len() == 0,
            pm.nesting == nesting,
    {
        OpPassManager { name: None, passes: Vec::new(), nesting }
    }

    /// A pass manager for the operation that is called `name`, or for any.
    pub fn new(
        name: &str,
        nesting: Nesting,
        registered: &Vec<OperationName>,
        interner: &Interner,
    ) -> (pm: Self)
        requires
            forall|i: int|
                0 <= i < registered@.len() ==> (#[trigger] registered@[i]).known(interner),
            name@ == ANY@ || operation_called(name@, registered@, interner) is Some,
        ensures
            pm.name == if name@ == ANY@ {
                None
            } else {
                operation_called(name@, registered@, interner)
            },
            pm.passes@.len() == 0,
            pm.nesting == nesting,
    {
        if same_text(name, ANY) {
            return Self::any(nesting);
        }
        OpPassManager {
            name: find_operation(name, registered, interner),
            passes: Vec::new(),
            nesting,
        }
    }

    /// A pass manager for an operation.
    pub fn for_operation(name: OperationName, nesting: Nesting) -> (pm: Self)
        ensures
            pm.name == Some(name),
            pm.passes@.len() == 0,
            pm.nesting == nesting,
    {
        OpPassManager { name: Some(name), passes: Vec::new(), nesting }
    }

    /// The passes.
    pub fn passes(&self) -> (passes: &Vec<PassEntry>)
        ensures
            *passes == self.passes,
    {
        &self.passes
    }

    /// The passes, to be changed.
    pub fn passes_mut(&mut self) -> (passes: &mut Vec<PassEntry>)
        ensures
            *passes == old(self).passes,
            final(self).passes == *final(passes),
            final(self).name == old(self).name,
            final(self).nesting == old(self).nesting,
    {
        &mut self.passes
    }

    /// Whether there are no passes.
    pub fn is_empty(&self) -> (b: bool)
        ensures
            b == (self.passes@.len() == 0),
    {
        self.passes.len() == 0
    }

    /// How many passes there are.
    pub fn len(&self) -> (n: usize)
        ensures
            n == self.passes@.len(),
    {
        self.passes.len()
    }

    /// Whether the pass manager is for any operation.
    pub fn is_op_agnostic(&self) -> (b: bool)
        ensures
            b == (self.name is None),
    {
        self.name.is_none()
    }

    /// Removes all passes.
    pub fn clear(&mut self)
        ensures
            final(self).passes@.len() == 0,
            final(self).name == old(self).name,
            final(self).nesting == old(self).nesting,
    {
        self.passes.clear();
    }

    /// The operation that the pass manager is for, if it is not for any.
    pub fn name(&self) -> (name: Option<OperationName>)
        ensures
            name == self.name,
    {
        self.name
    }

    /// Sets whether pass managers are nested for passes that run on another operation.
    pub fn set_nesting(&mut self, nesting: Nesting)
        ensures
            final(self).nesting == nesting,
            final(self).name == old(self).name,
            final(self).passes == old(self).passes,
    {
        self.nesting = nesting;
    }

    /// Whether pass managers are nested for passes that run on another operation.
    pub fn nesting(&self) -> (nesting: Nesting)
        ensures
            nesting == self.nesting,
    {
        self.nesting
    }

    /// The pass runs on another operation than this pass manager.
    pub open spec fn differs(&self, pass: PassEntry) -> bool {
        self.name is Some && pass.runs_only_on() is Some && self.name != pass.runs_only_on()
    }

    /// Adds a pass. If it runs on another operation than this pass manager, a pass manager is
    /// nested for it.
    pub fn add_pass(&mut self, pass: PassEntry)
        requires
            old(self).differs(pass) ==> old(self).nesting == Nesting::Implicit,
        ensures
            final(self).name == old(self).name,
            final(self).nesting == old(self).nesting,
            !old(self).differs(pass) ==> final(self).passes@ == old(self).passes@.push(pass),
            old(self).differs(pass) ==> {
                &&& final(self).passes@.len() == old(self).passes@.len() + 1
                &&& final(self).passes@.drop_last() == old(self).passes@
                &&& wraps(
                    final(self).passes@.last(),
                    pass.runs_only_on(),
                    old(self).nesting,
                    seq![pass],
                )
            },
    {
        if let Some(target) = pass.target_name() {
            if let Some(name) = self.name {
                if name != target {
                    let mut nested = Self::for_operation(target, self.nesting);
                    nested.passes.push(pass);
                    assert(nested.passes@ =~= seq![pass]);
                    self.passes.push(PassEntry::Adaptor(OpToOpPassAdaptor::new(nested)));
                    assert(self.passes@.drop_last() =~= old(self).passes@);
                    return;
                }
            }
        }
        self.passes.push(pass);
    }

    /// Moves the passes of this pass manager to one for the same operation.
    pub fn merge_into(&mut self, rhs: &mut Self)
        requires
            old(self).name == old(rhs).name,
        ensures
            final(self).passes@.len() == 0,
            final(self).name == old(self).name,
            final(self).nesting == old(self).nesting,
            final(rhs).name == old(rhs).name,
            final(rhs).nesting == old(rhs).nesting,
            final(rhs).passes@ == old(rhs).passes@ + old(self).passes@,
    {
        rhs.passes.append(&mut self.passes);
    }

    /// Nests a pass manager under this one.
    pub fn nest_pass_manager(&mut self, nested: OpPassManager) -> (scope: NestedOpPassManager<'_>)
        ensures
            *scope.parent == *old(self),
            *final(scope.parent) == *final(self),
            scope.nested == nested,
    {
        NestedOpPassManager { parent: self, nested }
    }

    /// Nests a pass manager for the operation that is called `nested_name` under this one.
    pub fn nest_with_type(
        &mut self,
        nested_name: &str,
        registered: &Vec<OperationName>,
        interner: &Interner,
    ) -> (scope: NestedOpPassManager<'_>)
        requires
            forall|i: int|
                0 <= i < registered@.len() ==> (#[trigger] registered@[i]).known(interner),
            nested_name@ == ANY@ || operation_called(nested_name@, registered@, interner) is Some,
        ensures
            *scope.parent == *old(self),
            *final(scope.parent) == *final(self),
            scope.nested.name == if nested_name@ == ANY@ {
                None
            } else {
                operation_called(nested_name@, registered@, interner)
            },
            scope.nested.passes@.len() == 0,
            scope.nested.nesting == old(self).nesting,
    {
        let nested = Self::new(nested_name, self.nesting, registered, interner);
        self.nest_pass_manager(nested)
    }

    /// Nests a pass manager for any operation under this one.
    pub fn nest_any(&mut self) -> (scope: NestedOpPassManager<'_>)
        ensures
            *scope.parent == *old(self),
            *final(scope.parent) == *final(self),
            scope.nested.name is None,
            scope.nested.passes@.len() == 0,
            scope.nested.nesting == old(self).nesting,
    {
        let nested = Self::any(self.nesting);
        self.nest_pass_manager(nested)
    }

    /// Nests a pass manager for the given operation under this one.
    pub fn nest_for(&mut self, name: OperationName) -> (scope: NestedOpPassManager<'_>)
        ensures
            *scope.parent == *old(self),
            *final(scope.parent) == *final(self),
            scope.nested.name == Some(name),
            scope.nested.passes@.len() == 0,
            scope.nested.nesting == old(self).nesting,
    {
        let nested = Self::for_operation(name, self.nesting);
        self.nest_pass_manager(nested)
    }

    /// Adds a pass to a pass manager for the given operation that is nested under this one. If the
    /// pass runs on yet another operation, one for that operation is nested there.
    pub fn add_nested_pass(&mut self, name: OperationName, pass: PassEntry)
        requires
            pass.runs_only_on() matches Some(target) && target != name ==> old(self).nesting
                == Nesting::Implicit,
        ensures
            final(self).name == old(self).name,
            final(self).nesting == old(self).nesting,
            final(self).passes@.len() == old(self).passes@.len() + 1,
            final(self).passes@.drop_last() == old(self).passes@,
            nests(final(self).passes@.last(), name, old(self).nesting, pass),
    {
        let mut scope = self.nest_for(name);
        let ghost differs = scope.nested.differs(pass);
        scope.nested.add_pass(pass);
        let ghost inner = scope.nested.passes@;
        assert(inner.len() == 1);
        assert(!differs ==> inner =~= seq![pass]);
        assert(inner.last() == inner[0]);
        scope.finish();
        assert(self.passes@.drop_last() =~= old(self).passes@);
    }
}

/// A pass manager that is to be nested under another.
pub struct NestedOpPassManager<'parent> {
    pub parent: &'parent mut OpPassManager,
    pub nested: OpPassManager,
}

impl<'parent> NestedOpPassManager<'parent> {
    /// Adds the nested pass manager to its parent.
    pub fn finish(self)
        ensures
            final(self.parent).name == old(self.parent).name,
            final(self.parent).nesting == old(self.parent).nesting,
            final(self.parent).passes@.len() == old(self.parent).passes@.len() + 1,
            final(self.parent).passes@.drop_last() == old(self.parent).passes@,
            final(self.parent).passes@.last() matches PassEntry::Adaptor(adaptor)
                && adaptor.pms@ == seq![self.nested],
    {
        let ghost before = self.parent.passes@;
        self.parent.passes.push(PassEntry::Adaptor(OpToOpPassAdaptor::new(self.nested)));
        assert(self.parent.passes@.drop_last() =~= before);
    }
}

/// The names in the tree of a pass manager are known.
pub open spec fn manager_known(manager: ManagerTree, interner: &Interner) -> bool
    decreases manager, 0int,
{
    &&& manager.name matches Some(name) ==> name.known(interner)
    &&& passes_known(manager.passes, manager.passes.len() as int, interner)
}

/// The names in the trees of the first `n` passes are known.
pub open spec fn passes_known(passes: Seq<PassTree>, n: int, interner: &Interner) -> bool
    decreases passes, n,
{
    if n <= 0 || n > passes.len() {
        true
    } else {
        passes_known(passes, n - 1, interner) && pass_known(passes[n - 1], interner)
    }
}

/// The names in the tree of a pass are known.
pub open spec fn pass_known(pass: PassTree, interner: &Interner) -> bool
    decreases pass, 0int,
{
    match pass {
        PassTree::Pass(_) => true,
        PassTree::Adaptor(pms) => managers_known(pms, pms.len() as int, interner),
    }
}

/// The names in the trees of the first `n` pass managers are known.
pub open spec fn managers_known(pms: Seq<ManagerTree>, n: int, interner: &Interner) -> bool
    decreases pms, n,
{
    if n <= 0 || n > pms.len() {
        true
    } else {
        managers_known(pms, n - 1, interner) && manager_known(pms[n - 1], interner)
    }
}

/// A pass manager in the text of a pipeline: what it runs on, and its passes in brackets.
pub open spec fn manager_shown(manager: ManagerTree, interner: &Interner) -> Seq<char>
    decreases manager, 0int,
{
    merge::anchor_shown(manager.name, interner) + "("@ + passes_shown(
        manager.passes,
        manager.passes.len() as int,
        interner,
    ) + ")"@
}

/// The first `n` passes in the text of a pipeline, with commas between them.
pub open spec fn passes_shown(passes: Seq<PassTree>, n: int, interner: &Interner) -> Seq<char>
    decreases passes, n,
{
    if n <= 0 || n > passes.len() {
        Seq::empty()
    } else {
        passes_shown(passes, n - 1, interner) + (if n > 1 {
            ","@
        } else {
            Seq::empty()
        }) + pass_shown(passes[n - 1], interner)
    }
}

/// A pass in the text of a pipeline.
pub open spec fn pass_shown(pass: PassTree, interner: &Interner) -> Seq<char>
    decreases pass, 0int,
{
    match pass {
        PassTree::Pass(info) => info.text@,
        PassTree::Adaptor(pms) => managers_shown(pms, pms.len() as int, interner),
    }
}

/// The first `n` pass managers in the text of a pipeline, with commas between them.
pub open spec fn managers_shown(pms: Seq<ManagerTree>, n: int, interner: &Interner) -> Seq<char>
    decreases pms, n,
{
    if n <= 0 || n > pms.len() {
        Seq::empty()
    } else {
        managers_shown(pms, n - 1, interner) + (if n > 1 {
            ","@
        } else {
            Seq::empty()
        }) + manager_shown(pms[n - 1], interner)
    }
}

fn push_passes(passes: &Vec<PassEntry>, n: usize, interner: &Interner, out: &mut String)
    requires
        n <= passes@.len(),
        passes_known(tree::entry_trees(passes@), n as int, interner),
    ensures
        final(out)@ == old(out)@ + passes_shown(tree::entry_trees(passes@), n as int, interner),
    decreases passes, n,
{
    if n > 0 {
        push_passes(passes, n - 1, interner, out);
        if n > 1 {
            out.append(",");
        }
        push_pass(&passes[n - 1], interner, out);
        assert(out@ =~= old(out)@ + passes_shown(
            tree::entry_trees(passes@),
            n as int,
            interner,
        ));
    } else {
        assert(out@ =~= old(out)@ + passes_shown(
            tree::entry_trees(passes@),
            n as int,
            interner,
        ));
    }
}

fn push_pass(pass: &PassEntry, interner: &Interner, out: &mut String)
    requires
        pass_known(tree::entry_tree(*pass), interner),
    ensures
        final(out)@ == old(out)@ + pass_shown(tree::entry_tree(*pass), interner),
    decreases pass, 0usize,
{
    match pass {
        PassEntry::Pass(info) => {
            out.append(info.text.as_str());
        },
        PassEntry::Adaptor(adaptor) => {
            proof {
                tree::adaptor_tree_is(*adaptor);
            }
            let len: usize = adaptor.pms.len();
            push_managers(&adaptor.pms, len, interner, out);
        },
    }
}

fn push_managers(pms: &Vec<OpPassManager>, n: usize, interner: &Interner, out: &mut String)
    requires
        n <= pms@.len(),
        managers_known(tree::manager_trees(pms@), n as int, interner),
    ensures
        final(out)@ == old(out)@ + managers_shown(tree::manager_trees(pms@), n as int, interner),
    decreases pms, n,
{
    if n > 0 {
        push_managers(pms, n - 1, interner, out);
        if n > 1 {
            out.append(",");
        }
        push_manager(&pms[n - 1], interner, out);
        assert(out@ =~= old(out)@ + managers_shown(
            tree::manager_trees(pms@),
            n as int,
            interner,
        ));
    } else {
        assert(out@ =~= old(out)@ + managers_shown(
            tree::manager_trees(pms@),
            n as int,
            interner,
        ));
    }
}

fn push_manager(manager: &OpPassManager, interner: &Interner, out: &mut String)
    requires
        manager_known(tree::manager_tree(*manager), interner),
    ensures
        final(out)@ == old(out)@ + manager_shown(tree::manager_tree(*manager), interner),
    decreases manager, 0usize,
{
    proof {
        tree::manager_tree_is(*manager);
    }
    out.append(show_anchor(&manager.name, interner).as_str());
    out.append("(");
    let len: usize = manager.passes.len();
    push_passes(&manager.passes, len, interner, out);
    out.append(")");
    assert(out@ =~= old(out)@ + manager_shown(tree::manager_tree(*manager), interner));
}

impl OpPassManager {
    /// The pass manager in the text of a pipeline.
    pub fn print_as_textual_pipeline(&self, interner: &Interner) -> (out: String)
        requires
            manager_known(tree::manager_tree(*self), interner),
        ensures
            out@ == manager_shown(tree::manager_tree(*self), interner),
    {
        let mut out = String::new();
        push_manager(self, interner, &mut out);
        assert(out@ =~= manager_shown(tree::manager_tree(*self), interner));
        out
    }
}

/// The pass manager that a program builds its pipeline with.
pub struct PassManager {
    pub pm: OpPassManager,
    /// How statistics are printed, if they are
    pub statistics: Option<PassDisplayMode>,
    pub timing: bool,
    /// Whether the intermediate representation is verified between passes
    pub verification: bool,
}

/// Why passes cannot run.
#[derive(Clone, Copy, PartialEq, Eq, Debug, Structural)]
pub enum RunError {
    /// The pass manager is for another operation
    WrongOperation,
    /// A pass cannot run on the operation that its pass manager is for
    UnschedulablePass,
    /// The operation is not isolated
    NotIsolated,
    /// The pass cannot run on the operation
    UnsupportedOperation,
    /// A pass could not be made ready
    InitializationFailed,
    /// The operation that passes are to run on is not valid
    VerificationFailed,
    PassFailed,
    /// The operation is not in the one that the pass runs on
    NotNested,
}

/// Whether the verifier runs, and how.
#[derive(Clone, Copy, PartialEq, Eq, Debug, Structural)]
pub enum Verification {
    Skip,
    /// The operation alone
    Shallow,
    /// The operation and those in it
    Recursive,
}

impl PassManager {
    /// A pass manager for the operation that is called `name`, or for any. The intermediate
    /// representation is verified between passes.
    pub fn new(
        name: &str,
        nesting: Nesting,
        registered: &Vec<OperationName>,
        interner: &Interner,
    ) -> (pm: Self)
        requires
            forall|i: int|
                0 <= i < registered@.len() ==> (#[trigger] registered@[i]).known(interner),
            name@ == ANY@ || operation_called(name@, registered@, interner) is Some,
        ensures
            pm.pm.name == if name@ == ANY@ {
                None
            } else {
                operation_called(name@, registered@, interner)
            },
            pm.pm.passes@.len() == 0,
            pm.pm.nesting == nesting,
            pm.statistics is None,
            !pm.timing,
            pm.verification,
    {
        PassManager {
            pm: OpPassManager::new(name, nesting, registered, interner),
            statistics: None,
            timing: false,
            verification: true,
        }
    }

    /// Makes the pipeline ready to run on an operation: the operation must be the one that the
    /// pass manager is for, and every pass must be able to run where it is to run.
    pub fn prepare(&mut self, op: &OperationName, isolated: &IsolatedOps) -> (done: Result<
        (),
        RunError,
    >)
        ensures
            final(self).statistics == old(self).statistics,
            final(self).timing == old(self).timing,
            final(self).verification == old(self).verification,
            if old(self).pm.name matches Some(anchor) && anchor != *op {
                done == Err::<(), _>(RunError::WrongOperation) && final(self).pm == old(self).pm
            } else {
                match finalize::finalized(tree::manager_tree(old(self).pm), isolated.names@) {
                    Some(after) => done is Ok && tree::manager_tree(final(self).pm) == after,
                    None => done == Err::<(), _>(RunError::UnschedulablePass),
                }
            },
    {
        if let Some(anchor) = self.pm.name {
            if anchor != *op {
                return Err(RunError::WrongOperation);
            }
        }
        match self.pm.finalize_pass_list(isolated) {
            Ok(_) => Ok(()),
            Err(UnschedulablePass {  }) => Err(RunError::UnschedulablePass),
        }
    }

    /// Whether to run the verifier after each pass.
    pub fn enable_verifier(&mut self, yes: bool)
        ensures
            *final(self) == (PassManager { verification: yes, ..*old(self) }),
    {
        self.verification = yes;
    }

    /// Whether to measure how long passes take.
    pub fn enable_timing(&mut self, yes: bool)
        ensures
            *final(self) == (PassManager { timing: yes, ..*old(self) }),
    {
        self.timing = yes;
    }

    /// How to print statistics.
    pub fn enable_statistics(&mut self, mode: Option<PassDisplayMode>)
        ensures
            *final(self) == (PassManager { statistics: mode, ..*old(self) }),
    {
        self.statistics = mode;
    }

    /// The pass manager in the text of a pipeline.
    pub fn print_as_textual_pipeline(&self, interner: &Interner) -> (out: String)
        requires
            manager_known(tree::manager_tree(self.pm), interner),
        ensures
            out@ == manager_shown(tree::manager_tree(self.pm), interner),
    {
        self.pm.print_as_textual_pipeline(interner)
    }

    /// Nests a pass manager under this one.
    pub fn nest_pass_manager(&mut self, nested: OpPassManager) -> (scope: NestedOpPassManager<'_>)
        ensures
            *scope.parent == old(self).pm,
            *final(self) == (PassManager { pm: *final(scope.parent), ..*old(self) }),
            scope.nested == nested,
    {
        self.pm.nest_pass_manager(nested)
    }

    /// Nests a pass manager for the operation that is called `nested_name` under this one.
    pub fn nest_with_type(
        &mut self,
        nested_name: &str,
        registered: &Vec<OperationName>,
        interner: &Interner,
    ) -> (scope: NestedOpPassManager<'_>)
        requires
            forall|i: int|
                0 <= i < registered@.len() ==> (#[trigger] registered@[i]).known(interner),
            nested_name@ == ANY@ || operation_called(nested_name@, registered@, interner) is Some,
        ensures
            *scope.parent == old(self).pm,
            *final(self) == (PassManager { pm: *final(scope.parent), ..*old(self) }),
            scope.nested.name == if nested_name@ == ANY@ {
                None
            } else {
                operation_called(nested_name@, registered@, interner)
            },
            scope.nested.passes@.len() == 0,
            scope.nested.nesting == old(self).pm.nesting,
    {
        self.pm.nest_with_type(nested_name, registered, interner)
    }

    /// Nests a pass manager for any operation under this one.
    pub fn nest_any(&mut self) -> (scope: NestedOpPassManager<'_>)
        ensures
            *scope.parent == old(self).pm,
            *final(self) == (PassManager { pm: *final(scope.parent), ..*old(self) }),
            scope.nested.name is None,
            scope.nested.passes@.len() == 0,
            scope.nested.nesting == old(self).pm.nesting,
    {
        self.pm.nest_any()
    }

    /// Adds a pass. If it runs on another operation than this pass manager, a pass manager is
    /// nested for it.
    pub fn add_pass(&mut self, pass: PassEntry)
        requires
            old(self).pm.differs(pass) ==> old(self).pm.nesting == Nesting::Implicit,
        ensures
            *final(self) == (PassManager { pm: final(self).pm, ..*old(self) }),
            final(self).pm.name == old(self).pm.name,
            final(self).pm.nesting == old(self).pm.nesting,
            !old(self).pm.differs(pass) ==> final(self).pm.passes@ == old(self).pm.passes@.push(
                pass,
            ),
            old(self).pm.differs(pass) ==> {
                &&& final(self).pm.passes@.len() == old(self).pm.passes@.len() + 1
                &&& final(self).pm.passes@.drop_last() == old(self).pm.passes@
                &&& wraps(
                    final(self).pm.passes@.last(),
                    pass.runs_only_on(),
                    old(self).pm.nesting,
                    seq![pass],
                )
            },
    {
        self.pm.add_pass(pass);
    }

    /// Adds a pass to a pass manager for the given operation that is nested under this one.
    pub fn add_nested_pass(&mut self, name: OperationName, pass: PassEntry)
        requires
            pass.runs_only_on() matches Some(target) && target != name ==> old(self).pm.nesting
                == Nesting::Implicit,
        ensures
            *final(self) == (PassManager { pm: final(self).pm, ..*old(self) }),
            final(self).pm.name == old(self).pm.name,
            final(self).pm.nesting == old(self).pm.nesting,
            final(self).pm.passes@.len() == old(self).pm.passes@.len() + 1,
            final(self).pm.passes@.drop_last() == old(self).pm.passes@,
            nests(final(self).pm.passes@.last(), name, old(self).pm.nesting, pass),
    {
        self.pm.add_nested_pass(name, pass);
    }
}

/// Whether a pass can be run on an operation.
pub fn check_schedule(pass: &PassEntry, op: &OperationName, isolated: &IsolatedOps) -> (done:
    Result<(), RunError>)
    ensures
        done == if !isolated.names@.contains(*op) {
            Err::<(), _>(RunError::NotIsolated)
        } else if !merge::runs_on(tree::entry_tree(*pass), *op) {
            Err(RunError::UnsupportedOperation)
        } else {
            Ok(())
        },
{
    if !isolated.is_isolated(op) {
        return Err(RunError::NotIsolated);
    }
    if !pass.can_schedule_on(op) {
        return Err(RunError::UnsupportedOperation);
    }
    Ok(())
}

/// How to verify an operation after a pass ran on it: not at all if the pass failed or changed
/// nothing, and without the operations in it if these were verified after nested passes.
pub fn verification_after(
    pass: &PassEntry,
    verify: bool,
    succeeded: bool,
    preserved_all: bool,
) -> (verification: Verification)
    ensures
        verification == if !verify || !succeeded || preserved_all {
            Verification::Skip
        } else if pass is Adaptor {
            Verification::Shallow
        } else {
            Verification::Recursive
        },
{
    if !verify || !succeeded || preserved_all {
        return Verification::Skip;
    }
    match pass {
        PassEntry::Adaptor(_) => Verification::Shallow,
        PassEntry::Pass(_) => Verification::Recursive,
    }
}

/// The first pass manager, from `from` on, that can run on an operation.
pub open spec fn chosen_from(
    pms: Seq<ManagerTree>,
    name: OperationName,
    isolated: Seq<OperationName>,
    from: int,
) -> Option<int>
    decreases pms.len() - from,
{
    if from < 0 || from >= pms.len() {
        None
    } else if merge::manages(pms[from], name, isolated) {
        Some(from)
    } else {
        chosen_from(pms, name, isolated, from + 1)
    }
}

impl OpToOpPassAdaptor {
    /// The pass manager that runs on an operation: the first that can.
    pub fn manager_for(&self, name: &OperationName, isolated: &IsolatedOps) -> (found: Option<
        usize,
    >)
        ensures
            match found {
                Some(at) => at < self.pms@.len() && chosen_from(
                    tree::manager_trees(self.pms@),
                    *name,
                    isolated.names@,
                    0,
                ) == Some(at as int),
                None => chosen_from(
                    tree::manager_trees(self.pms@),
                    *name,
                    isolated.names@,
                    0,
                ) is None,
            },
    {
        let ghost trees = tree::manager_trees(self.pms@);
        let mut i: usize = 0;
        while i < self.pms.len()
            invariant
                i <= self.pms@.len(),
                trees == tree::manager_trees(self.pms@),
                chosen_from(trees, *name, isolated.names@, 0) == chosen_from(
                    trees,
                    *name,
                    isolated.names@,
                    i as int,
                ),
            decreases self.pms@.len() - i,
        {
            if self.pms[i].can_schedule_on(name, isolated) {
                return Some(i);
            }
            i = i + 1;
        }
        None
    }
}

/// An operation that has a pass manager of its own is run by that one, even if there is one for
/// any operation, once the pass managers are in order.
pub proof fn own_manager_comes_first(
    pms: Seq<ManagerTree>,
    name: OperationName,
    isolated: Seq<OperationName>,
    at: int,
)
    requires
        0 <= at < pms.len(),
        merge::in_order(pms)[at].name == Some(name),
    ensures
        chosen_from(merge::in_order(pms), name, isolated, 0) matches Some(chosen) && 0 <= chosen
            <= at && merge::in_order(pms)[chosen].name == Some(name),
{
    merge::order_is_kept(pms);
    own_manager_is_found(merge::in_order(pms), name, isolated, at, 0);
}

proof fn own_manager_is_found(
    pms: Seq<ManagerTree>,
    name: OperationName,
    isolated: Seq<OperationName>,
    at: int,
    from: int,
)
    requires
        0 <= from <= at < pms.len(),
        pms[at].name == Some(name),
        forall|i: int, j: int|
            0 <= i < j < pms.len() ==> !merge::comes_before(
                (#[trigger] pms[j]).name,
                (#[trigger] pms[i]).name,
            ),
    ensures
        chosen_from(pms, name, isolated, from) matches Some(chosen) && from <= chosen <= at
            && pms[chosen].name == Some(name),
    decreases at - from,
{
    if from < at {
        assert(!merge::comes_before(pms[at].name, pms[from].name));
        if !merge::manages(pms[from], name, isolated) {
            own_manager_is_found(pms, name, isolated, at, from + 1);
        }
    }
}

} // verus!

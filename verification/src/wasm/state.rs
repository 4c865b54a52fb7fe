//! The value stack and the control stack of a translation.
use vstd::prelude::*;
use crate::wasm::builder::{Built, FunctionBuilder};
use crate::wasm::ir::{BlockId, Value};
use crate::wasm::operator::BlockType;

verus! {

/// What is known of the `else` of an `if`.
#[derive(Clone, Copy, PartialEq, Eq, Debug, Structural)]
pub enum ElseData {
    /// There may be none: the branch at the head leads to the code after the `if`, and is led
    /// elsewhere when an `else` turns up.
    NoElse { branch: u32, placeholder: BlockId },
    /// There must be one, in the given block.
    WithElse { else_block: BlockId },
}

/// An entry of the control stack: a control structure that has not ended yet.
#[derive(Clone, Copy, PartialEq, Eq, Debug, Structural)]
pub enum ControlStackFrame {
    If {
        destination: BlockId,
        else_data: ElseData,
        num_param_values: usize,
        num_return_values: usize,
        original_stack_size: usize,
        exit_is_branched_to: bool,
        blocktype: BlockType,
        head_is_reachable: bool,
        /// Whether the end of the consequent can be reached, once it has ended.
        consequent_ends_reachable: Option<bool>,
    },
    Block {
        destination: BlockId,
        num_param_values: usize,
        num_return_values: usize,
        original_stack_size: usize,
        exit_is_branched_to: bool,
    },
    Loop {
        destination: BlockId,
        header: BlockId,
        num_param_values: usize,
        num_return_values: usize,
        original_stack_size: usize,
    },
}

impl ControlStackFrame {
    /// How many values the structure leaves.
    pub open spec fn result_count(self) -> nat {
        match self {
            ControlStackFrame::If { num_return_values, .. } => num_return_values as nat,
            ControlStackFrame::Block { num_return_values, .. } => num_return_values as nat,
            ControlStackFrame::Loop { num_return_values, .. } => num_return_values as nat,
        }
    }

    /// How many values the structure leaves.
    pub fn num_return_values(&self) -> (n: usize)
        ensures
            n == self.result_count(),
    {
        match self {
            ControlStackFrame::If { num_return_values, .. } => *num_return_values,
            ControlStackFrame::Block { num_return_values, .. } => *num_return_values,
            ControlStackFrame::Loop { num_return_values, .. } => *num_return_values,
        }
    }

    /// How many values a branch to the structure takes: its parameters for a loop, else its
    /// results.
    pub open spec fn branch_values(self) -> nat {
        match self {
            ControlStackFrame::Loop { num_param_values, .. } => num_param_values as nat,
            _ => self.result_count(),
        }
    }

    /// How many values a branch to the structure takes.
    pub fn num_branch_values(&self) -> (n: usize)
        ensures
            n == self.branch_values(),
    {
        match self {
            ControlStackFrame::Loop { num_param_values, .. } => *num_param_values,
            _ => self.num_return_values(),
        }
    }

    /// The code after the structure.
    pub open spec fn after(self) -> BlockId {
        match self {
            ControlStackFrame::If { destination, .. } => destination,
            ControlStackFrame::Block { destination, .. } => destination,
            ControlStackFrame::Loop { destination, .. } => destination,
        }
    }

    /// The code after the structure.
    pub fn following_code(&self) -> (block: BlockId)
        ensures
            block == self.after(),
    {
        match self {
            ControlStackFrame::If { destination, .. } => *destination,
            ControlStackFrame::Block { destination, .. } => *destination,
            ControlStackFrame::Loop { destination, .. } => *destination,
        }
    }

    /// Where a branch to the structure leads: to the head of a loop, else to the code after it.
    pub open spec fn target(self) -> BlockId {
        match self {
            ControlStackFrame::Loop { header, .. } => header,
            _ => self.after(),
        }
    }

    /// Where a branch to the structure leads.
    pub fn br_destination(&self) -> (block: BlockId)
        ensures
            block == self.target(),
    {
        match self {
            ControlStackFrame::Loop { header, .. } => *header,
            _ => self.following_code(),
        }
    }

    /// The height of the value stack below the structure.
    ///
    /// An `if` holds its parameters twice, so that its `else` finds them; they are counted once
    /// in the height that it recorded.
    pub open spec fn base(self) -> int {
        match self {
            ControlStackFrame::If { original_stack_size, num_param_values, .. } =>
                original_stack_size - num_param_values,
            ControlStackFrame::Block { original_stack_size, .. } => original_stack_size as int,
            ControlStackFrame::Loop { original_stack_size, .. } => original_stack_size as int,
        }
    }

    /// Control leaves the structure through a branch.
    pub open spec fn is_left(self) -> bool {
        match self {
            ControlStackFrame::If { exit_is_branched_to, .. } => exit_is_branched_to,
            ControlStackFrame::Block { exit_is_branched_to, .. } => exit_is_branched_to,
            ControlStackFrame::Loop { .. } => false,
        }
    }

    /// Whether control leaves the structure through a branch. A branch to a loop does not.
    pub fn exit_is_branched_to(&self) -> (b: bool)
        ensures
            b == self.is_left(),
    {
        match self {
            ControlStackFrame::If { exit_is_branched_to, .. } => *exit_is_branched_to,
            ControlStackFrame::Block { exit_is_branched_to, .. } => *exit_is_branched_to,
            ControlStackFrame::Loop { .. } => false,
        }
    }

    /// The structure, with control leaving it through a branch.
    pub open spec fn left(self) -> ControlStackFrame {
        match self {
            ControlStackFrame::If {
                destination,
                else_data,
                num_param_values,
                num_return_values,
                original_stack_size,
                blocktype,
                head_is_reachable,
                consequent_ends_reachable,
                ..
            } => ControlStackFrame::If {
                destination,
                else_data,
                num_param_values,
                num_return_values,
                original_stack_size,
                exit_is_branched_to: true,
                blocktype,
                head_is_reachable,
                consequent_ends_reachable,
            },
            ControlStackFrame::Block {
                destination,
                num_param_values,
                num_return_values,
                original_stack_size,
                ..
            } => ControlStackFrame::Block {
                destination,
                num_param_values,
                num_return_values,
                original_stack_size,
                exit_is_branched_to: true,
            },
            ControlStackFrame::Loop { .. } => self,
        }
    }

    /// Notes that control leaves the structure through a branch.
    pub fn branched_to_exit(&self) -> (frame: ControlStackFrame)
        ensures
            frame == self.left(),
    {
        match *self {
            ControlStackFrame::If {
                destination,
                else_data,
                num_param_values,
                num_return_values,
                original_stack_size,
                blocktype,
                head_is_reachable,
                consequent_ends_reachable,
                ..
            } => ControlStackFrame::If {
                destination,
                else_data,
                num_param_values,
                num_return_values,
                original_stack_size,
                exit_is_branched_to: true,
                blocktype,
                head_is_reachable,
                consequent_ends_reachable,
            },
            ControlStackFrame::Block {
                destination,
                num_param_values,
                num_return_values,
                original_stack_size,
                ..
            } => ControlStackFrame::Block {
                destination,
                num_param_values,
                num_return_values,
                original_stack_size,
                exit_is_branched_to: true,
            },
            ControlStackFrame::Loop { .. } => *self,
        }
    }
}

/// The state of a translation: the function built so far, the value stack, the control stack, and
/// whether the current code can be reached. The last items of the stacks are their tops.
#[verifier::ext_equal]
pub ghost struct Trans {
    pub b: Built,
    pub stack: Seq<Value>,
    pub control: Seq<ControlStackFrame>,
    pub reachable: bool,
}

impl Trans {
    /// The `i`th value from the top.
    pub open spec fn peek(self, i: int) -> Value {
        self.stack[self.stack.len() - 1 - i]
    }

    /// The top `n` values, the topmost last.
    pub open spec fn top(self, n: nat) -> Seq<Value> {
        self.stack.skip(self.stack.len() - n)
    }

    /// The state without the top `n` values.
    pub open spec fn popped(self, n: nat) -> Trans {
        Trans { stack: self.stack.take(self.stack.len() - n), ..self }
    }

    /// The state with one more step taken, and `value` on top.
    pub open spec fn gains(self, built: (Built, Value)) -> Trans {
        Trans { b: built.0, stack: self.stack.push(built.1), ..self }
    }

    /// The state with one more step taken that defines no value.
    pub open spec fn does(self, step: crate::wasm::builder::Step) -> Trans {
        Trans { b: self.b.step(step, 0), ..self }
    }

    /// The frame that a branch of the given depth leads to.
    pub open spec fn frame(self, depth: int) -> ControlStackFrame {
        self.control[self.control.len() - 1 - depth]
    }

    /// The state, with control leaving the structure at `depth` through a branch.
    pub open spec fn leaves(self, depth: int) -> Trans {
        let i = self.control.len() - 1 - depth;
        Trans { control: self.control.update(i, self.control[i].left()), ..self }
    }
}

/// The stacks of a translation.
pub struct FuncTranslationState {
    pub stack: Vec<Value>,
    pub control_stack: Vec<ControlStackFrame>,
    pub reachable: bool,
}

impl FuncTranslationState {
    /// The state of the translation, with the function that `builder` builds.
    pub open spec fn with(&self, builder: &FunctionBuilder) -> Trans {
        Trans {
            b: builder@,
            stack: self.stack@,
            control: self.control_stack@,
            reachable: self.reachable,
        }
    }

    /// A state with empty stacks, in code that can be reached.
    pub fn new() -> (state: FuncTranslationState)
        ensures
            state.stack@ == Seq::<Value>::empty(),
            state.control_stack@ == Seq::<ControlStackFrame>::empty(),
            state.reachable,
    {
        FuncTranslationState { stack: Vec::new(), control_stack: Vec::new(), reachable: true }
    }

    /// Starts over, in a function with the given number of results and the given block at its
    /// end.
    pub fn initialize(&mut self, num_results: usize, exit_block: BlockId)
        ensures
            final(self).stack@ == Seq::<Value>::empty(),
            final(self).control_stack@ == seq![
                ControlStackFrame::Block {
                    destination: exit_block,
                    num_param_values: 0,
                    num_return_values: num_results,
                    original_stack_size: 0,
                    exit_is_branched_to: false,
                },
            ],
            final(self).reachable,
    {
        self.stack = Vec::new();
        self.control_stack = Vec::new();
        self.reachable = true;
        self.push_block(exit_block, 0, num_results);
    }

    /// Pushes a value.
    pub fn push1(&mut self, value: Value)
        ensures
            final(self).stack@ == old(self).stack@.push(value),
            final(self).control_stack == old(self).control_stack,
            final(self).reachable == old(self).reachable,
    {
        self.stack.push(value);
    }

    /// Pushes values, the first one first.
    pub fn pushn(&mut self, values: &[Value])
        ensures
            final(self).stack@ == old(self).stack@ + values@,
            final(self).control_stack == old(self).control_stack,
            final(self).reachable == old(self).reachable,
    {
        let mut i: usize = 0;
        while i < values.len()
            invariant
                i <= values@.len(),
                self.stack@ == old(self).stack@ + values@.take(i as int),
                self.control_stack == old(self).control_stack,
                self.reachable == old(self).reachable,
            decreases values@.len() - i,
        {
            self.stack.push(values[i]);
            i = i + 1;
            assert(self.stack@ == old(self).stack@ + values@.take(i as int));
        }
        assert(values@.take(values@.len() as int) == values@);
    }

    /// Pops a value.
    pub fn pop1(&mut self) -> (value: Value)
        requires
            old(self).stack@.len() >= 1,
        ensures
            value == old(self).stack@.last(),
            final(self).stack@ == old(self).stack@.take(old(self).stack@.len() - 1),
            final(self).control_stack == old(self).control_stack,
            final(self).reachable == old(self).reachable,
    {
        let last: usize = self.stack.len() - 1;
        let value = self.stack[last];
        self.stack.truncate(last);
        value
    }

    /// Pops two values. The second one was on top.
    pub fn pop2(&mut self) -> (values: (Value, Value))
        requires
            old(self).stack@.len() >= 2,
        ensures
            values.0 == old(self).stack@[old(self).stack@.len() - 2],
            values.1 == old(self).stack@.last(),
            final(self).stack@ == old(self).stack@.take(old(self).stack@.len() - 2),
            final(self).control_stack == old(self).control_stack,
            final(self).reachable == old(self).reachable,
    {
        let second = self.pop1();
        let first = self.pop1();
        assert(self.stack@ == old(self).stack@.take(old(self).stack@.len() - 2));
        (first, second)
    }

    /// Pops three values. The third one was on top.
    pub fn pop3(&mut self) -> (values: (Value, Value, Value))
        requires
            old(self).stack@.len() >= 3,
        ensures
            values.0 == old(self).stack@[old(self).stack@.len() - 3],
            values.1 == old(self).stack@[old(self).stack@.len() - 2],
            values.2 == old(self).stack@.last(),
            final(self).stack@ == old(self).stack@.take(old(self).stack@.len() - 3),
            final(self).control_stack == old(self).control_stack,
            final(self).reachable == old(self).reachable,
    {
        let third = self.pop1();
        let (first, second) = self.pop2();
        assert(self.stack@ == old(self).stack@.take(old(self).stack@.len() - 3));
        (first, second, third)
    }

    /// The top value.
    pub fn peek1(&self) -> (value: Value)
        requires
            self.stack@.len() >= 1,
        ensures
            value == self.stack@.last(),
    {
        self.stack[self.stack.len() - 1]
    }

    /// The top `n` values, the topmost last.
    pub fn peekn(&self, n: usize) -> (values: Vec<Value>)
        requires
            n <= self.stack@.len(),
        ensures
            values@ == self.stack@.skip(self.stack@.len() - n),
    {
        let mut values: Vec<Value> = Vec::new();
        let mut i: usize = self.stack.len() - n;
        let ghost first = i;
        while i < self.stack.len()
            invariant
                first <= i <= self.stack@.len(),
                values@ == self.stack@.subrange(first as int, i as int),
            decreases self.stack@.len() - i,
        {
            values.push(self.stack[i]);
            i = i + 1;
            assert(values@ == self.stack@.subrange(first as int, i as int));
        }
        assert(values@ == self.stack@.skip(self.stack@.len() - n));
        values
    }

    /// Pops `n` values.
    pub fn popn(&mut self, n: usize)
        requires
            n <= old(self).stack@.len(),
        ensures
            final(self).stack@ == old(self).stack@.take(old(self).stack@.len() - n),
            final(self).control_stack == old(self).control_stack,
            final(self).reachable == old(self).reachable,
    {
        let left: usize = self.stack.len() - n;
        self.stack.truncate(left);
    }

    /// Enters a block.
    pub fn push_block(
        &mut self,
        following_code: BlockId,
        num_param_values: usize,
        num_return_values: usize,
    )
        requires
            num_param_values <= old(self).stack@.len(),
        ensures
            final(self).stack == old(self).stack,
            final(self).reachable == old(self).reachable,
            final(self).control_stack@ == old(self).control_stack@.push(
                ControlStackFrame::Block {
                    destination: following_code,
                    num_param_values,
                    num_return_values,
                    original_stack_size: (old(self).stack@.len() - num_param_values) as usize,
                    exit_is_branched_to: false,
                },
            ),
    {
        let original_stack_size: usize = self.stack.len() - num_param_values;
        self.control_stack.push(
            ControlStackFrame::Block {
                destination: following_code,
                num_param_values,
                num_return_values,
                original_stack_size,
                exit_is_branched_to: false,
            },
        );
    }

    /// Enters a loop.
    pub fn push_loop(
        &mut self,
        header: BlockId,
        following_code: BlockId,
        num_param_values: usize,
        num_return_values: usize,
    )
        requires
            num_param_values <= old(self).stack@.len(),
        ensures
            final(self).stack == old(self).stack,
            final(self).reachable == old(self).reachable,
            final(self).control_stack@ == old(self).control_stack@.push(
                ControlStackFrame::Loop {
                    destination: following_code,
                    header,
                    num_param_values,
                    num_return_values,
                    original_stack_size: (old(self).stack@.len() - num_param_values) as usize,
                },
            ),
    {
        let original_stack_size: usize = self.stack.len() - num_param_values;
        self.control_stack.push(
            ControlStackFrame::Loop {
                destination: following_code,
                header,
                num_param_values,
                num_return_values,
                original_stack_size,
            },
        );
    }

    /// Enters an `if`. Its parameters are pushed a second time, for its `else`.
    pub fn push_if(
        &mut self,
        destination: BlockId,
        else_data: ElseData,
        num_param_values: usize,
        num_return_values: usize,
        blocktype: BlockType,
    )
        requires
            num_param_values <= old(self).stack@.len(),
        ensures
            final(self).stack@ == old(self).stack@ + old(self).stack@.skip(
                old(self).stack@.len() - num_param_values,
            ),
            final(self).reachable == old(self).reachable,
            final(self).control_stack@ == old(self).control_stack@.push(
                ControlStackFrame::If {
                    destination,
                    else_data,
                    num_param_values,
                    num_return_values,
                    original_stack_size: old(self).stack@.len() as usize,
                    exit_is_branched_to: false,
                    blocktype,
                    head_is_reachable: old(self).reachable,
                    consequent_ends_reachable: None,
                },
            ),
    {
        let original_stack_size: usize = self.stack.len();
        let params = self.peekn(num_param_values);
        self.pushn(params.as_slice());
        self.control_stack.push(
            ControlStackFrame::If {
                destination,
                else_data,
                num_param_values,
                num_return_values,
                original_stack_size,
                exit_is_branched_to: false,
                blocktype,
                head_is_reachable: self.reachable,
                consequent_ends_reachable: None,
            },
        );
    }

    /// Pops what a structure put on the value stack.
    pub fn truncate_to_base(&mut self, frame: &ControlStackFrame)
        requires
            0 <= frame.base() <= old(self).stack@.len(),
        ensures
            final(self).stack@ == old(self).stack@.take(frame.base()),
            final(self).control_stack == old(self).control_stack,
            final(self).reachable == old(self).reachable,
    {
        let size: usize = match *frame {
            ControlStackFrame::If { original_stack_size, num_param_values, .. } =>
                original_stack_size - num_param_values,
            ControlStackFrame::Block { original_stack_size, .. } => original_stack_size,
            ControlStackFrame::Loop { original_stack_size, .. } => original_stack_size,
        };
        self.stack.truncate(size);
    }
}

} // verus!

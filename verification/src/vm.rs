//! The virtual machine.
//!
//! A single growable operand stack executes one compiled block. Global
//! slots live at the bottom of the stack; `ReadGlobal` and
//! `AssignGlobal` address them directly. Printed values are collected
//! in an output list — the caller decides how to render them — and a
//! runtime error aborts the run immediately.
//!
//! The `Unknown` placeholder — a value only the typecheck pass puts
//! into play — propagates through arithmetic, comparisons and
//! containers instead of failing, so the same bytecode can be run as a
//! static check.
//!
//! The machine computes with integers, booleans, strings and the heap
//! containers. Arithmetic on floats is not performed here — an
//! operation on float operands is a type mismatch — and function values
//! cannot yet be built by the compiler, so invoking anything but the
//! `Unknown` placeholder fails.

use vstd::prelude::*;

verus! {

broadcast use vstd::seq::axiom_seq_index_decreases, vstd::std_specs::vec::axiom_vec_decreases_to_view;

use crate::compiler::{Block, Op};
use crate::error::{RuntimeError, RuntimeErrorV};
use crate::heap::{heap_wf, Heap, HeapV};
use crate::value::{
    lemma_view_values,
    spec_value_eq,
    value_eq,
    view_value,
    view_values,
    Value,
    ValueV,
};

/// The view of a [`VM`]: its stack, heap, collected output and mode.
pub ghost struct VmV {
    pub stack: Seq<ValueV>,
    pub heap: HeapV,
    pub output: Seq<ValueV>,
    pub typecheck: bool,
}

/// The virtual machine state.
pub struct VM {
    pub stack: Vec<Value>,
    pub heap: Heap,
    pub output: Vec<Value>,
    pub typecheck: bool,
    pub print_bytecode: bool,
    pub print_exec: bool,
}

impl View for VM {
    type V = VmV;

    open spec fn view(&self) -> VmV {
        VmV {
            stack: view_values(self.stack@),
            heap: self.heap@,
            output: view_values(self.output@),
            typecheck: self.typecheck,
        }
    }
}

/// What one opcode does to the machine state.
pub ghost enum StepR {
    /// Keep going with this state.
    Next(VmV),
    /// The block returned; this is the final state.
    Done(VmV),
    /// The run fails with this error.
    Fail(RuntimeErrorV),
}

/// Whether a value is the typecheck placeholder.
pub open spec fn is_unknown(v: ValueV) -> bool {
    v is Unknown
}

/// The semantics of one opcode at source line `line`, over the views.
pub open spec fn step_spec(s: VmV, consts: Seq<ValueV>, op: Op, line: usize) -> StepR {
    match op {
        Op::Constant(slot) => if slot < consts.len() {
            StepR::Next(VmV { stack: s.stack.push(consts[slot as int]), ..s })
        } else {
            StepR::Fail(RuntimeErrorV::Fault { line, message: "constant slot out of range"@ })
        },
        Op::Add => binary_step(s, line, BinOp::Add),
        Op::Sub => binary_step(s, line, BinOp::Sub),
        Op::Mul => binary_step(s, line, BinOp::Mul),
        Op::Div => binary_step(s, line, BinOp::Div),
        Op::Equal => equal_step(s, line),
        Op::Less => binary_step(s, line, BinOp::Less),
        Op::Greater => binary_step(s, line, BinOp::Greater),
        Op::And => binary_step(s, line, BinOp::And),
        Op::Or => binary_step(s, line, BinOp::Or),
        Op::Contains => contains_step(s, line),
        Op::Not => if s.stack.len() < 1 {
            underflow(line)
        } else {
            let a = s.stack.last();
            let rest = s.stack.drop_last();
            if is_unknown(a) {
                StepR::Next(VmV { stack: rest.push(ValueV::Unknown), ..s })
            } else {
                match a {
                    ValueV::Bool(b) => StepR::Next(
                        VmV { stack: rest.push(ValueV::Bool(!b)), ..s },
                    ),
                    _ => type_mismatch(line),
                }
            }
        },
        Op::Neg => if s.stack.len() < 1 {
            underflow(line)
        } else {
            let a = s.stack.last();
            let rest = s.stack.drop_last();
            if is_unknown(a) {
                StepR::Next(VmV { stack: rest.push(ValueV::Unknown), ..s })
            } else {
                match a {
                    ValueV::Int(x) => StepR::Next(
                        VmV { stack: rest.push(ValueV::Int(wrap_neg(x))), ..s },
                    ),
                    _ => type_mismatch(line),
                }
            }
        },
        Op::Assert => if s.stack.len() < 1 {
            underflow(line)
        } else {
            let a = s.stack.last();
            if is_unknown(a) || a == ValueV::Bool(true) {
                StepR::Next(s)
            } else {
                StepR::Fail(RuntimeErrorV::AssertFailed { line })
            }
        },
        Op::Call(n) => if s.stack.len() < n + 1 {
            underflow(line)
        } else {
            let callee = s.stack[s.stack.len() - n - 1];
            let rest = s.stack.take(s.stack.len() - n - 1);
            if is_unknown(callee) {
                StepR::Next(VmV { stack: rest.push(ValueV::Unknown), ..s })
            } else {
                type_mismatch(line)
            }
        },
        Op::GetIndex => if s.stack.len() < 2 {
            underflow(line)
        } else {
            let i = s.stack.last();
            let c = s.stack.drop_last().last();
            let rest = s.stack.drop_last().drop_last();
            if is_unknown(i) || is_unknown(c) {
                StepR::Next(VmV { stack: rest.push(ValueV::Unknown), ..s })
            } else {
                match (c, i) {
                    (ValueV::List(h), ValueV::Int(k)) => if h < s.heap.lists.len() && 0 <= k < s.heap.lists[h as int].len() {
                        StepR::Next(VmV { stack: rest.push(s.heap.lists[h as int][k as int]), ..s })
                    } else {
                        StepR::Fail(RuntimeErrorV::Fault { line, message: "index out of range"@ })
                    },
                    (ValueV::Tuple(vs), ValueV::Int(k)) => if 0 <= k < vs.len() {
                        StepR::Next(VmV { stack: rest.push(vs[k as int]), ..s })
                    } else {
                        StepR::Fail(RuntimeErrorV::Fault { line, message: "index out of range"@ })
                    },
                    (ValueV::Dict(h), _) => if h < s.heap.dicts.len() {
                        match crate::heap::dict_find(s.heap.dicts[h as int], i) {
                            Option::Some(j) => StepR::Next(
                                VmV { stack: rest.push(s.heap.dicts[h as int][j].1), ..s },
                            ),
                            Option::None => StepR::Fail(
                                RuntimeErrorV::Fault { line, message: "key not found"@ },
                            ),
                        }
                    } else {
                        StepR::Fail(RuntimeErrorV::Fault { line, message: "index out of range"@ })
                    },
                    _ => type_mismatch(line),
                }
            }
        },
        Op::AssignIndex => if s.stack.len() < 3 {
            underflow(line)
        } else {
            let v = s.stack.last();
            let i = s.stack.drop_last().last();
            let c = s.stack.drop_last().drop_last().last();
            let rest = s.stack.drop_last().drop_last().drop_last();
            if is_unknown(i) || is_unknown(c) {
                StepR::Next(VmV { stack: rest, ..s })
            } else {
                match (c, i) {
                    (ValueV::List(h), ValueV::Int(k)) => if h < s.heap.lists.len() && 0 <= k < s.heap.lists[h as int].len() {
                        StepR::Next(
                            VmV {
                                stack: rest,
                                heap: HeapV {
                                    lists: s.heap.lists.update(
                                        h as int,
                                        s.heap.lists[h as int].update(k as int, v),
                                    ),
                                    ..s.heap
                                },
                                ..s
                            },
                        )
                    } else {
                        StepR::Fail(RuntimeErrorV::Fault { line, message: "index out of range"@ })
                    },
                    (ValueV::Dict(h), _) => if h < s.heap.dicts.len() {
                        StepR::Next(
                            VmV {
                                stack: rest,
                                heap: HeapV {
                                    dicts: s.heap.dicts.update(
                                        h as int,
                                        crate::heap::dict_put(s.heap.dicts[h as int], i, v),
                                    ),
                                    ..s.heap
                                },
                                ..s
                            },
                        )
                    } else {
                        StepR::Fail(RuntimeErrorV::Fault { line, message: "index out of range"@ })
                    },
                    _ => type_mismatch(line),
                }
            }
        },
        Op::ReadGlobal(slot) => if slot < s.stack.len() {
            StepR::Next(VmV { stack: s.stack.push(s.stack[slot as int]), ..s })
        } else {
            StepR::Fail(RuntimeErrorV::Fault { line, message: "global slot out of range"@ })
        },
        Op::AssignGlobal(slot) => if s.stack.len() < 1 {
            underflow(line)
        } else if slot < s.stack.len() - 1 {
            StepR::Next(
                VmV { stack: s.stack.drop_last().update(slot as int, s.stack.last()), ..s },
            )
        } else {
            StepR::Fail(RuntimeErrorV::Fault { line, message: "global slot out of range"@ })
        },
        Op::Print => if s.stack.len() < 1 {
            underflow(line)
        } else {
            StepR::Next(
                VmV { stack: s.stack.drop_last(), output: s.output.push(s.stack.last()), ..s },
            )
        },
        Op::Return => StepR::Done(s),
        Op::Tuple(n) => if s.stack.len() < n {
            underflow(line)
        } else {
            StepR::Next(
                VmV {
                    stack: s.stack.take(s.stack.len() - n).push(
                        ValueV::Tuple(s.stack.skip(s.stack.len() - n)),
                    ),
                    ..s
                },
            )
        },
        Op::List(n) => if s.stack.len() < n {
            underflow(line)
        } else {
            StepR::Next(
                VmV {
                    stack: s.stack.take(s.stack.len() - n).push(
                        ValueV::List(s.heap.lists.len() as usize),
                    ),
                    heap: HeapV {
                        lists: s.heap.lists.push(s.stack.skip(s.stack.len() - n)),
                        ..s.heap
                    },
                    ..s
                },
            )
        },
        Op::SetCol(n) => if s.stack.len() < n {
            underflow(line)
        } else {
            StepR::Next(
                VmV {
                    stack: s.stack.take(s.stack.len() - n).push(
                        ValueV::SetCol(s.heap.sets.len() as usize),
                    ),
                    heap: HeapV {
                        sets: s.heap.sets.push(dedup(s.stack.skip(s.stack.len() - n))),
                        ..s.heap
                    },
                    ..s
                },
            )
        },
        Op::Dict(n) => if s.stack.len() < n || n % 2 != 0 {
            underflow(line)
        } else {
            StepR::Next(
                VmV {
                    stack: s.stack.take(s.stack.len() - n).push(
                        ValueV::Dict(s.heap.dicts.len() as usize),
                    ),
                    heap: HeapV {
                        dicts: s.heap.dicts.push(pairs(s.stack.skip(s.stack.len() - n))),
                        ..s.heap
                    },
                    ..s
                },
            )
        },
    }
}

/// A stack-underflow fault.
pub open spec fn underflow(line: usize) -> StepR {
    StepR::Fail(RuntimeErrorV::Fault { line, message: "stack underflow"@ })
}

/// A wrong-operand fault.
pub open spec fn type_mismatch(line: usize) -> StepR {
    StepR::Fail(
        RuntimeErrorV::TypeMismatch { line, message: "wrong operand for this operation"@ },
    )
}

/// The binary operations, named for [`binary_step`].
#[derive(Clone, Copy, Debug)]
pub enum BinOp {
    Add,
    Sub,
    Mul,
    Div,
    Less,
    Greater,
    And,
    Or,
}

/// The semantics of the binary opcodes: pop the right then the left
/// operand; `Unknown` on either side propagates.
pub open spec fn binary_step(s: VmV, line: usize, o: BinOp) -> StepR {
    if s.stack.len() < 2 {
        underflow(line)
    } else {
        let b = s.stack.last();
        let a = s.stack.drop_last().last();
        let rest = s.stack.drop_last().drop_last();
        if is_unknown(a) || is_unknown(b) {
            StepR::Next(VmV { stack: rest.push(ValueV::Unknown), ..s })
        } else {
            match binary_value(s.heap, a, b, o) {
                Option::Some(v) => StepR::Next(VmV { stack: rest.push(v), ..s }),
                Option::None => if (o is Div) && (a is Int) && b == ValueV::Int(0) {
                    StepR::Fail(RuntimeErrorV::Fault { line, message: "division by zero"@ })
                } else {
                    type_mismatch(line)
                },
            }
        }
    }
}

/// The depth budget the machine grants one structural comparison:
/// generously past twice the number of heap container slots, which
/// covers every acyclic value — only a self-referential value can
/// exhaust it. Saturating, so the budget is well-defined on any heap.
pub open spec fn eq_fuel(heap: HeapV) -> nat {
    sat_add(sat_add(sat_add(heap.lists.len(), heap.sets.len()), heap.dicts.len()), sat_add(
        sat_add(sat_add(heap.lists.len(), heap.sets.len()), heap.dicts.len()),
        2,
    )) as nat
}

/// Addition capped at the machine word.
pub open spec fn sat_add(a: nat, b: nat) -> nat {
    if a + b > usize::MAX {
        usize::MAX as nat
    } else {
        a + b
    }
}

/// The semantics of `==`: pop both operands and push whether they are
/// structurally equal, contents and all, through the heap
/// ([`crate::heap::deep_eq`]); `Unknown` propagates. A comparison past
/// the depth budget — a self-referential value — is a fault.
pub open spec fn equal_step(s: VmV, line: usize) -> StepR {
    if s.stack.len() < 2 {
        underflow(line)
    } else {
        let b = s.stack.last();
        let a = s.stack.drop_last().last();
        let rest = s.stack.drop_last().drop_last();
        if is_unknown(a) || is_unknown(b) {
            StepR::Next(VmV { stack: rest.push(ValueV::Unknown), ..s })
        } else {
            match crate::heap::deep_eq(s.heap, a, b, eq_fuel(s.heap)) {
                Option::Some(t) => StepR::Next(VmV { stack: rest.push(ValueV::Bool(t)), ..s }),
                Option::None => StepR::Fail(
                    RuntimeErrorV::Fault { line, message: "value comparison too deep"@ },
                ),
            }
        }
    }
}

/// The semantics of `in`: structural membership, through the heap, in
/// a tuple, list, set, or a dict's keys; `Unknown` propagates.
pub open spec fn contains_step(s: VmV, line: usize) -> StepR {
    if s.stack.len() < 2 {
        underflow(line)
    } else {
        let b = s.stack.last();
        let a = s.stack.drop_last().last();
        let rest = s.stack.drop_last().drop_last();
        if is_unknown(a) || is_unknown(b) {
            StepR::Next(VmV { stack: rest.push(ValueV::Unknown), ..s })
        } else {
            match b {
                ValueV::Tuple(vs) => membership_step(
                    s,
                    rest,
                    crate::heap::any_right_deep(s.heap, a, vs, eq_fuel(s.heap)),
                    line,
                ),
                ValueV::List(h) => if h < s.heap.lists.len() {
                    membership_step(
                        s,
                        rest,
                        crate::heap::any_right_deep(
                            s.heap,
                            a,
                            s.heap.lists[h as int],
                            eq_fuel(s.heap),
                        ),
                        line,
                    )
                } else {
                    membership_step(s, rest, Option::None, line)
                },
                ValueV::SetCol(h) => if h < s.heap.sets.len() {
                    membership_step(
                        s,
                        rest,
                        crate::heap::any_right_deep(
                            s.heap,
                            a,
                            s.heap.sets[h as int],
                            eq_fuel(s.heap),
                        ),
                        line,
                    )
                } else {
                    membership_step(s, rest, Option::None, line)
                },
                ValueV::Dict(h) => if h < s.heap.dicts.len() {
                    membership_step(
                        s,
                        rest,
                        crate::heap::key_member_deep(
                            s.heap,
                            a,
                            s.heap.dicts[h as int],
                            eq_fuel(s.heap),
                        ),
                        line,
                    )
                } else {
                    membership_step(s, rest, Option::None, line)
                },
                _ => type_mismatch(line),
            }
        }
    }
}

/// Finishes a membership test: push the decision, or fault when the
/// comparison could not bottom out.
pub open spec fn membership_step(s: VmV, rest: Seq<ValueV>, found: Option<bool>, line: usize) -> StepR {
    match found {
        Option::Some(t) => StepR::Next(VmV { stack: rest.push(ValueV::Bool(t)), ..s }),
        Option::None => StepR::Fail(
            RuntimeErrorV::Fault { line, message: "value comparison too deep"@ },
        ),
    }
}

/// The value a binary operation produces, when the operands fit it.
/// Integer arithmetic wraps; comparisons and the boolean connectives
/// work pointwise.
pub open spec fn binary_value(heap: HeapV, a: ValueV, b: ValueV, o: BinOp) -> Option<ValueV> {
    match o {
        BinOp::Add => match (a, b) {
            (ValueV::Int(x), ValueV::Int(y)) => Option::Some(ValueV::Int(x.wrapping_add(y))),
            (ValueV::String(x), ValueV::String(y)) => Option::Some(ValueV::String(x + y)),
            _ => Option::None,
        },
        BinOp::Sub => match (a, b) {
            (ValueV::Int(x), ValueV::Int(y)) => Option::Some(ValueV::Int(x.wrapping_sub(y))),
            _ => Option::None,
        },
        BinOp::Mul => match (a, b) {
            (ValueV::Int(x), ValueV::Int(y)) => Option::Some(ValueV::Int(x.wrapping_mul(y))),
            _ => Option::None,
        },
        BinOp::Div => match (a, b) {
            (ValueV::Int(x), ValueV::Int(y)) => if y != 0 {
                Option::Some(ValueV::Int(truncating_div(x, y)))
            } else {
                Option::None
            },
            _ => Option::None,
        },
        BinOp::Less => match (a, b) {
            (ValueV::Int(x), ValueV::Int(y)) => Option::Some(ValueV::Bool(x < y)),
            _ => Option::None,
        },
        BinOp::Greater => match (a, b) {
            (ValueV::Int(x), ValueV::Int(y)) => Option::Some(ValueV::Bool(x > y)),
            _ => Option::None,
        },
        BinOp::And => match (a, b) {
            (ValueV::Bool(x), ValueV::Bool(y)) => Option::Some(ValueV::Bool(x && y)),
            _ => Option::None,
        },
        BinOp::Or => match (a, b) {
            (ValueV::Bool(x), ValueV::Bool(y)) => Option::Some(ValueV::Bool(x || y)),
            _ => Option::None,
        },
    }
}

/// Integer negation, wrapping on the one value that overflows.
pub open spec fn wrap_neg(x: i64) -> i64 {
    if x == i64::MIN {
        i64::MIN
    } else {
        (-x) as i64
    }
}

/// Signed division as `/` computes it: truncating toward zero, on the
/// magnitudes.
pub open spec fn truncating_div(x: i64, y: i64) -> i64
    recommends
        y != 0,
{
    let ax = if x >= 0 {
        x as int
    } else {
        -(x as int)
    };
    let ay = if y >= 0 {
        y as int
    } else {
        -(y as int)
    };
    let q = ax / ay;
    if (x >= 0) == (y >= 0) {
        q as i64
    } else {
        (-q) as i64
    }
}

/// The sequence with later duplicates removed under the heap-free
/// equality, keeping the first occurrence: how a set literal collects
/// its elements, which — like the original's hash-set — treats two
/// distinct backing containers as distinct elements.
pub open spec fn dedup(vs: Seq<ValueV>) -> Seq<ValueV>
    decreases vs.len(),
{
    if vs.len() == 0 {
        Seq::empty()
    } else if crate::value::spec_eq_any_member(vs.last(), vs.drop_last()) {
        dedup(vs.drop_last())
    } else {
        dedup(vs.drop_last()).push(vs.last())
    }
}

/// Consecutive values paired up: key, value, key, value, ...
pub open spec fn pairs(vs: Seq<ValueV>) -> Seq<(ValueV, ValueV)> {
    Seq::new(vs.len() / 2, |i: int| (vs[2 * i], vs[2 * i + 1]))
}

/// The result of running a block from some state: the final state, or
/// the state at failure with the error.
pub ghost enum RunR {
    Finished(VmV),
    Failed(RuntimeErrorV),
}

/// Running the opcodes from index `i` to the end: step by step until a
/// `Return`, a fault, or the end of the block.
pub open spec fn run_spec(s: VmV, consts: Seq<ValueV>, ops: Seq<Op>, lines: Seq<usize>, i: int) -> RunR
    decreases ops.len() - i,
{
    if i < 0 || i >= ops.len() {
        RunR::Finished(s)
    } else {
        match step_spec(s, consts, ops[i], lines[i]) {
            StepR::Next(s2) => run_spec(s2, consts, ops, lines, i + 1),
            StepR::Done(s2) => RunR::Finished(s2),
            StepR::Fail(e) => RunR::Failed(e),
        }
    }
}

/// Dropping the last of a value vector drops the last of its view.
pub proof fn lemma_vv_unsnoc(s: Seq<Value>)
    requires
        s.len() > 0,
    ensures
        view_values(s.drop_last()) == view_values(s).drop_last(),
        view_value(s.last()) == view_values(s).last(),
        view_values(s).len() == s.len(),
{
    lemma_view_values(s);
    assert(view_values(s) == view_values(s.drop_last()).push(view_value(s.last())));
    assert(view_values(s).drop_last() =~= view_values(s.drop_last()));
}

/// Pushing onto a value vector pushes onto its view.
pub proof fn lemma_vv_snoc(s: Seq<Value>, v: Value)
    ensures
        view_values(s.push(v)) == view_values(s).push(view_value(v)),
{
    assert(s.push(v).drop_last() =~= s);
    assert(s.push(v).last() == v);
}

/// Views commute with subranges.
pub proof fn lemma_vv_subrange(s: Seq<Value>, a: int, b: int)
    requires
        0 <= a <= b <= s.len(),
    ensures
        view_values(s.subrange(a, b)) == view_values(s).subrange(a, b),
{
    lemma_view_values(s);
    lemma_view_values(s.subrange(a, b));
    assert(view_values(s.subrange(a, b)) =~= view_values(s).subrange(a, b));
}

/// The outcome of one executed opcode.
pub enum StepOutcome {
    /// Go on to the next opcode.
    KeepGoing,
    /// The block returned.
    Finished,
    /// The run failed.
    Failed(RuntimeError),
}

impl VM {
    /// A fresh machine in the given mode.
    pub fn new(typecheck: bool) -> (vm: VM)
        ensures
            heap_wf(vm.heap),
            vm@.stack == Seq::<ValueV>::empty(),
            vm@.output == Seq::<ValueV>::empty(),
            vm@.typecheck == typecheck,
            vm@.heap.lists == Seq::<Seq<ValueV>>::empty(),
            vm@.heap.sets == Seq::<Seq<ValueV>>::empty(),
            vm@.heap.dicts == Seq::<Seq<(ValueV, ValueV)>>::empty(),
            vm@.heap.instances == Seq::<Seq<(Seq<char>, ValueV)>>::empty(),
            vm@.heap.cells == Seq::<ValueV>::empty(),
            vm@.heap.iters == 0,
    {
        let vm = VM {
            stack: Vec::new(),
            heap: Heap::new(),
            output: Vec::new(),
            typecheck,
            print_bytecode: false,
            print_exec: false,
        };
        proof {
            assert(view_values(vm.stack@) =~= Seq::<ValueV>::empty());
            assert(view_values(vm.output@) =~= Seq::<ValueV>::empty());
        }
        vm
    }

    /// Pops the operand stack; fails the step on underflow.
    fn pop_value(&mut self, line: usize) -> (r: Result<Value, RuntimeError>)
        ensures
            old(self)@.stack.len() == 0 ==> (r matches Result::Err(e) && e@ == (
            RuntimeErrorV::Fault { line, message: "stack underflow"@ }) && final(self)@ == old(
                self,
            )@ && final(self).heap == old(self).heap && final(self).output == old(self).output),
            old(self)@.stack.len() > 0 ==> (r matches Result::Ok(v) && v@ == old(
                self,
            )@.stack.last() && final(self)@ == (VmV {
                stack: old(self)@.stack.drop_last(),
                ..old(self)@
            }) && final(self).heap == old(self).heap && final(self).output == old(self).output),
    {
        proof {
            lemma_view_values(self.stack@);
            if self.stack@.len() > 0 {
                lemma_vv_unsnoc(self.stack@);
            }
        }
        let ghost pre = self.stack@;
        let r = self.stack.pop();
        proof {
            if pre.len() > 0 {
                assert(self.stack@ =~= pre.drop_last());
            }
        }
        match r {
            Option::Some(v) => Ok(v),
            Option::None => Err(
                RuntimeError::Fault { line, message: "stack underflow".to_owned() },
            ),
        }
    }

    /// Pushes a value onto the operand stack.
    fn push_value(&mut self, v: Value)
        ensures
            final(self)@ == (VmV { stack: old(self)@.stack.push(v@), ..old(self)@ }),
            final(self).heap == old(self).heap,
            final(self).output == old(self).output,
    {
        proof {
            lemma_vv_snoc(self.stack@, v);
        }
        self.stack.push(v);
    }
}

impl VM {
    /// Executes one binary opcode; see [`binary_step`].
    fn binary(&mut self, line: usize, o: BinOp) -> (r: StepOutcome)
        requires
            heap_wf(old(self).heap),
        ensures
            heap_wf(final(self).heap),
            match binary_step(old(self)@, line, o) {
                StepR::Next(s2) => r is KeepGoing && final(self)@ == s2,
                StepR::Done(s2) => false,
                StepR::Fail(e) => r matches StepOutcome::Failed(err) && err@ == e,
            },
    {
        let b = match self.pop_value(line) {
            Result::Ok(v) => v,
            Result::Err(e) => {
                return StepOutcome::Failed(e);
            },
        };
        let a = match self.pop_value(line) {
            Result::Ok(v) => v,
            Result::Err(e) => {
                return StepOutcome::Failed(e);
            },
        };
        if matches!(a, Value::Unknown) || matches!(b, Value::Unknown) {
            self.push_value(Value::Unknown);
            return StepOutcome::KeepGoing;
        }
        let computed: Option<Value> = match o {
            BinOp::Add => match (&a, &b) {
                (Value::Int(x), Value::Int(y)) => Some(Value::Int(x.wrapping_add(*y))),
                (Value::String(x), Value::String(y)) => {
                    let joined = x.clone().concat(y.as_str());
                    Some(Value::String(joined))
                },
                _ => None,
            },
            BinOp::Sub => match (&a, &b) {
                (Value::Int(x), Value::Int(y)) => Some(Value::Int(x.wrapping_sub(*y))),
                _ => None,
            },
            BinOp::Mul => match (&a, &b) {
                (Value::Int(x), Value::Int(y)) => Some(Value::Int(x.wrapping_mul(*y))),
                _ => None,
            },
            BinOp::Div => match (&a, &b) {
                (Value::Int(x), Value::Int(y)) => {
                    if *y == 0 {
                        None
                    } else {
                        Some(Value::Int(div_trunc(*x, *y)))
                    }
                },
                _ => None,
            },
            BinOp::Less => match (&a, &b) {
                (Value::Int(x), Value::Int(y)) => Some(Value::Bool(*x < *y)),
                _ => None,
            },
            BinOp::Greater => match (&a, &b) {
                (Value::Int(x), Value::Int(y)) => Some(Value::Bool(*x > *y)),
                _ => None,
            },
            BinOp::And => match (&a, &b) {
                (Value::Bool(x), Value::Bool(y)) => Some(Value::Bool(*x && *y)),
                _ => None,
            },
            BinOp::Or => match (&a, &b) {
                (Value::Bool(x), Value::Bool(y)) => Some(Value::Bool(*x || *y)),
                _ => None,
            },
        };
        match computed {
            Option::Some(v) => {
                proof {
                    assert(binary_value(self@.heap, a@, b@, o) matches Option::Some(w) && w
                        == v@);
                }
                self.push_value(v);
                StepOutcome::KeepGoing
            },
            Option::None => {
                if matches!(o, BinOp::Div) && matches!(&a, Value::Int(_)) && matches!(
                    &b,
                    Value::Int(y) if *y == 0
                ) {
                    StepOutcome::Failed(
                        RuntimeError::Fault { line, message: "division by zero".to_owned() },
                    )
                } else {
                    StepOutcome::Failed(
                        RuntimeError::TypeMismatch {
                            line,
                            message: "wrong operand for this operation".to_owned(),
                        },
                    )
                }
            },
        }
    }
}

impl VM {
    /// The machine's comparison budget; see [`eq_fuel`].
    fn eq_budget(&self) -> (r: usize)
        ensures
            r as nat == eq_fuel(self@.heap),
    {
        let slots = sat_add_exec(
            sat_add_exec(self.heap.lists.len(), self.heap.sets.len()),
            self.heap.dicts.len(),
        );
        sat_add_exec(slots, sat_add_exec(slots, 2))
    }

    /// Executes the `==` opcode; see [`equal_step`].
    fn equal(&mut self, line: usize) -> (r: StepOutcome)
        requires
            heap_wf(old(self).heap),
        ensures
            heap_wf(final(self).heap),
            match equal_step(old(self)@, line) {
                StepR::Next(s2) => r is KeepGoing && final(self)@ == s2,
                StepR::Done(s2) => false,
                StepR::Fail(e) => r matches StepOutcome::Failed(err) && err@ == e,
            },
    {
        let b = match self.pop_value(line) {
            Result::Ok(v) => v,
            Result::Err(e) => {
                return StepOutcome::Failed(e);
            },
        };
        let a = match self.pop_value(line) {
            Result::Ok(v) => v,
            Result::Err(e) => {
                return StepOutcome::Failed(e);
            },
        };
        if matches!(a, Value::Unknown) || matches!(b, Value::Unknown) {
            self.push_value(Value::Unknown);
            return StepOutcome::KeepGoing;
        }
        let fuel = self.eq_budget();
        match crate::heap::deep_value_eq(&self.heap, &a, &b, fuel) {
            Option::Some(t) => {
                self.push_value(Value::Bool(t));
                StepOutcome::KeepGoing
            },
            Option::None => StepOutcome::Failed(
                RuntimeError::Fault { line, message: "value comparison too deep".to_owned() },
            ),
        }
    }

    /// Executes the `in` opcode; see [`contains_step`].
    fn contains(&mut self, line: usize) -> (r: StepOutcome)
        requires
            heap_wf(old(self).heap),
        ensures
            heap_wf(final(self).heap),
            match contains_step(old(self)@, line) {
                StepR::Next(s2) => r is KeepGoing && final(self)@ == s2,
                StepR::Done(s2) => false,
                StepR::Fail(e) => r matches StepOutcome::Failed(err) && err@ == e,
            },
    {
        let b = match self.pop_value(line) {
            Result::Ok(v) => v,
            Result::Err(e) => {
                return StepOutcome::Failed(e);
            },
        };
        let a = match self.pop_value(line) {
            Result::Ok(v) => v,
            Result::Err(e) => {
                return StepOutcome::Failed(e);
            },
        };
        if matches!(a, Value::Unknown) || matches!(b, Value::Unknown) {
            self.push_value(Value::Unknown);
            return StepOutcome::KeepGoing;
        }
        let fuel = self.eq_budget();
        let found: Option<bool> = match &b {
            Value::Tuple(vs) => crate::heap::vec_any_right(&self.heap, &a, vs, fuel),
            Value::List(h) => {
                if *h < self.heap.lists.len() {
                    proof {
                        assert(self@.heap.lists[*h as int] == crate::value::view_values(
                            self.heap.lists@[*h as int]@,
                        ));
                    }
                    crate::heap::vec_any_right(&self.heap, &a, &self.heap.lists[*h], fuel)
                } else {
                    None
                }
            },
            Value::SetCol(h) => {
                if *h < self.heap.sets.len() {
                    proof {
                        assert(self@.heap.sets[*h as int] == crate::value::view_values(
                            self.heap.sets@[*h as int]@,
                        ));
                    }
                    crate::heap::vec_any_right(&self.heap, &a, &self.heap.sets[*h], fuel)
                } else {
                    None
                }
            },
            Value::Dict(h) => {
                if *h < self.heap.dicts.len() {
                    proof {
                        assert(self@.heap.dicts[*h as int] == crate::heap::view_dict_slot(
                            self.heap.dicts@[*h as int].0@,
                            self.heap.dicts@[*h as int].1@,
                        ));
                    }
                    crate::heap::dict_key_member_exec(
                        &self.heap,
                        &a,
                        &self.heap.dicts[*h].0,
                        &self.heap.dicts[*h].1,
                        fuel,
                    )
                } else {
                    None
                }
            },
            _ => {
                return StepOutcome::Failed(
                    RuntimeError::TypeMismatch {
                        line,
                        message: "wrong operand for this operation".to_owned(),
                    },
                );
            },
        };
        match found {
            Option::Some(t) => {
                self.push_value(Value::Bool(t));
                StepOutcome::KeepGoing
            },
            Option::None => StepOutcome::Failed(
                RuntimeError::Fault { line, message: "value comparison too deep".to_owned() },
            ),
        }
    }
}

/// Executable form of [`sat_add`].
fn sat_add_exec(a: usize, b: usize) -> (r: usize)
    ensures
        r as nat == sat_add(a as nat, b as nat),
{
    if a > usize::MAX - b {
        usize::MAX
    } else {
        a + b
    }
}

/// Truncating signed division; see [`truncating_div`].
fn div_trunc(x: i64, y: i64) -> (r: i64)
    requires
        y != 0,
    ensures
        r == truncating_div(x, y),
{
    let ax: u64 = if x >= 0 {
        x as u64
    } else {
        ((-(x + 1)) as u64) + 1
    };
    let ay: u64 = if y >= 0 {
        y as u64
    } else {
        ((-(y + 1)) as u64) + 1
    };
    let q = ax / ay;
    if (x >= 0) == (y >= 0) {
        #[verifier::truncate] (q as i64)
    } else {
        if q == 0x8000_0000_0000_0000u64 {
            i64::MIN
        } else {
            -(q as i64)
        }
    }
}

impl VM {
    /// Executes one opcode; the outcome and the new state are exactly
    /// [`step_spec`] of the old state.
    #[verifier::loop_isolation(false)]
    #[verifier::rlimit(90)]
    #[verifier::spinoff_prover]
    pub fn step(&mut self, consts: &Vec<Value>, op: Op, line: usize) -> (r: StepOutcome)
        requires
            heap_wf(old(self).heap),
        ensures
            heap_wf(final(self).heap),
            match step_spec(old(self)@, view_values(consts@), op, line) {
                StepR::Next(s2) => r is KeepGoing && final(self)@ == s2,
                StepR::Done(s2) => r is Finished && final(self)@ == s2,
                StepR::Fail(e) => r matches StepOutcome::Failed(err) && err@ == e,
            },
    {
        match op {
            Op::Constant(slot) => {
                proof {
                    lemma_view_values(consts@);
                }
                if slot < consts.len() {
                    let v = consts[slot].clone();
                    self.push_value(v);
                    StepOutcome::KeepGoing
                } else {
                    StepOutcome::Failed(
                        RuntimeError::Fault {
                            line,
                            message: "constant slot out of range".to_owned(),
                        },
                    )
                }
            },

            Op::Add => self.binary(line, BinOp::Add),
            Op::Sub => self.binary(line, BinOp::Sub),
            Op::Mul => self.binary(line, BinOp::Mul),
            Op::Div => self.binary(line, BinOp::Div),
            Op::Equal => self.equal(line),
            Op::Less => self.binary(line, BinOp::Less),
            Op::Greater => self.binary(line, BinOp::Greater),
            Op::And => self.binary(line, BinOp::And),
            Op::Or => self.binary(line, BinOp::Or),
            Op::Contains => self.contains(line),

            Op::Not => {
                let a = match self.pop_value(line) {
                    Result::Ok(v) => v,
                    Result::Err(e) => {
                        return StepOutcome::Failed(e);
                    },
                };
                match a {
                    Value::Unknown => {
                        self.push_value(Value::Unknown);
                        StepOutcome::KeepGoing
                    },
                    Value::Bool(b) => {
                        self.push_value(Value::Bool(!b));
                        StepOutcome::KeepGoing
                    },
                    _ => StepOutcome::Failed(
                        RuntimeError::TypeMismatch {
                            line,
                            message: "wrong operand for this operation".to_owned(),
                        },
                    ),
                }
            },

            Op::Neg => {
                let a = match self.pop_value(line) {
                    Result::Ok(v) => v,
                    Result::Err(e) => {
                        return StepOutcome::Failed(e);
                    },
                };
                match a {
                    Value::Unknown => {
                        self.push_value(Value::Unknown);
                        StepOutcome::KeepGoing
                    },
                    Value::Int(x) => {
                        let n = if x == i64::MIN {
                            i64::MIN
                        } else {
                            -x
                        };
                        self.push_value(Value::Int(n));
                        StepOutcome::KeepGoing
                    },
                    _ => StepOutcome::Failed(
                        RuntimeError::TypeMismatch {
                            line,
                            message: "wrong operand for this operation".to_owned(),
                        },
                    ),
                }
            },

            Op::Assert => {
                if self.stack.len() == 0 {
                    proof {
                        lemma_view_values(self.stack@);
                    }
                    return StepOutcome::Failed(
                        RuntimeError::Fault { line, message: "stack underflow".to_owned() },
                    );
                }
                proof {
                    lemma_vv_unsnoc(self.stack@);
                }
                let top = &self.stack[self.stack.len() - 1];
                let holds = matches!(top, Value::Unknown) || matches!(top, Value::Bool(b) if *b);
                proof {
                    assert(top@ == self@.stack.last());
                }
                if holds {
                    StepOutcome::KeepGoing
                } else {
                    StepOutcome::Failed(RuntimeError::AssertFailed { line })
                }
            },

            Op::Call(n) => {
                if n == usize::MAX || self.stack.len() < n + 1 {
                    proof {
                        lemma_view_values(self.stack@);
                        vstd::std_specs::vec::axiom_spec_len(&self.stack);
                    }
                    return StepOutcome::Failed(
                        RuntimeError::Fault { line, message: "stack underflow".to_owned() },
                    );
                }
                proof {
                    lemma_view_values(self.stack@);
                }
                let at = self.stack.len() - n - 1;
                let callee_is_unknown = matches!(&self.stack[at], Value::Unknown);
                proof {
                    assert(view_values(self.stack@)[at as int] == view_value(
                        self.stack@[at as int],
                    ));
                }
                if callee_is_unknown {
                    let ghost pre = self.stack@;
                    let _ = self.stack.split_off(at);
                    proof {
                        lemma_view_values(pre);
                        lemma_vv_subrange(pre, 0, at as int);
                        assert(view_values(self.stack@) =~= view_values(pre).take(at as int));
                    }
                    self.push_value(Value::Unknown);
                    StepOutcome::KeepGoing
                } else {
                    StepOutcome::Failed(
                        RuntimeError::TypeMismatch {
                            line,
                            message: "wrong operand for this operation".to_owned(),
                        },
                    )
                }
            },

            Op::GetIndex => {
                let i = match self.pop_value(line) {
                    Result::Ok(v) => v,
                    Result::Err(e) => {
                        return StepOutcome::Failed(e);
                    },
                };
                let c = match self.pop_value(line) {
                    Result::Ok(v) => v,
                    Result::Err(e) => {
                        return StepOutcome::Failed(e);
                    },
                };
                if matches!(i, Value::Unknown) || matches!(c, Value::Unknown) {
                    self.push_value(Value::Unknown);
                    return StepOutcome::KeepGoing;
                }
                match (&c, &i) {
                    (Value::List(h), Value::Int(k)) => {
                        let mut in_range = false;
                        let mut ku: usize = 0;
                        if *h < self.heap.lists.len() && *k >= 0 {
                            let n = self.heap.list_len(*h);
                            if (*k as u64) < (n as u64) {
                                in_range = true;
                                ku = (*k as u64) as usize;
                            }
                        }
                        if in_range {
                            let v = self.heap.list_get(*h, ku).clone();
                            self.push_value(v);
                            StepOutcome::KeepGoing
                        } else {
                            StepOutcome::Failed(
                                RuntimeError::Fault {
                                    line,
                                    message: "index out of range".to_owned(),
                                },
                            )
                        }
                    },
                    (Value::Tuple(vs), Value::Int(k)) => {
                        proof {
                            lemma_view_values(vs@);
                        }
                        let mut in_range = false;
                        let mut ku: usize = 0;
                        if *k >= 0 && (*k as u64) < (vs.len() as u64) {
                            in_range = true;
                            ku = (*k as u64) as usize;
                        }
                        if in_range {
                            let v = vs[ku].clone();
                            self.push_value(v);
                            StepOutcome::KeepGoing
                        } else {
                            StepOutcome::Failed(
                                RuntimeError::Fault {
                                    line,
                                    message: "index out of range".to_owned(),
                                },
                            )
                        }
                    },
                    (Value::Dict(h), _) => {
                        if *h < self.heap.dicts.len() {
                            proof {
                                crate::heap::lemma_dict_find(self.heap@.dicts[*h as int], i@);
                            }
                            match self.heap.dict_find_key(*h, &i) {
                                Option::Some(j) => {
                                    let (_, val) = self.heap.dict_get(*h, j);
                                    let v = val.clone();
                                    self.push_value(v);
                                    StepOutcome::KeepGoing
                                },
                                Option::None => StepOutcome::Failed(
                                    RuntimeError::Fault {
                                        line,
                                        message: "key not found".to_owned(),
                                    },
                                ),
                            }
                        } else {
                            StepOutcome::Failed(
                                RuntimeError::Fault {
                                    line,
                                    message: "index out of range".to_owned(),
                                },
                            )
                        }
                    },
                    _ => StepOutcome::Failed(
                        RuntimeError::TypeMismatch {
                            line,
                            message: "wrong operand for this operation".to_owned(),
                        },
                    ),
                }
            },

            Op::AssignIndex => {
                let v = match self.pop_value(line) {
                    Result::Ok(x) => x,
                    Result::Err(e) => {
                        return StepOutcome::Failed(e);
                    },
                };
                let i = match self.pop_value(line) {
                    Result::Ok(x) => x,
                    Result::Err(e) => {
                        return StepOutcome::Failed(e);
                    },
                };
                let c = match self.pop_value(line) {
                    Result::Ok(x) => x,
                    Result::Err(e) => {
                        return StepOutcome::Failed(e);
                    },
                };
                if matches!(i, Value::Unknown) || matches!(c, Value::Unknown) {
                    return StepOutcome::KeepGoing;
                }
                match (&c, &i) {
                    (Value::List(h), Value::Int(k)) => {
                        let mut in_range = false;
                        let mut ku: usize = 0;
                        if *h < self.heap.lists.len() && *k >= 0 {
                            let n = self.heap.list_len(*h);
                            if (*k as u64) < (n as u64) {
                                in_range = true;
                                ku = (*k as u64) as usize;
                            }
                        }
                        if in_range {
                            self.heap.list_set(*h, ku, v);
                            StepOutcome::KeepGoing
                        } else {
                            StepOutcome::Failed(
                                RuntimeError::Fault {
                                    line,
                                    message: "index out of range".to_owned(),
                                },
                            )
                        }
                    },
                    (Value::Dict(h), _) => {
                        if *h < self.heap.dicts.len() {
                            let key = i.clone();
                            self.heap.dict_put_pair(*h, key, v);
                            StepOutcome::KeepGoing
                        } else {
                            StepOutcome::Failed(
                                RuntimeError::Fault {
                                    line,
                                    message: "index out of range".to_owned(),
                                },
                            )
                        }
                    },
                    _ => StepOutcome::Failed(
                        RuntimeError::TypeMismatch {
                            line,
                            message: "wrong operand for this operation".to_owned(),
                        },
                    ),
                }
            },

            Op::ReadGlobal(slot) => {
                proof {
                    lemma_view_values(self.stack@);
                }
                if slot < self.stack.len() {
                    let v = self.stack[slot].clone();
                    self.push_value(v);
                    StepOutcome::KeepGoing
                } else {
                    StepOutcome::Failed(
                        RuntimeError::Fault {
                            line,
                            message: "global slot out of range".to_owned(),
                        },
                    )
                }
            },

            Op::AssignGlobal(slot) => {
                let v = match self.pop_value(line) {
                    Result::Ok(x) => x,
                    Result::Err(e) => {
                        return StepOutcome::Failed(e);
                    },
                };
                proof {
                    lemma_view_values(self.stack@);
                }
                if slot < self.stack.len() {
                    let ghost pre = self.stack@;
                    let ghost vv = v@;
                    self.stack.set(slot, v);
                    proof {
                        lemma_view_values(self.stack@);
                        assert(view_values(self.stack@) =~= view_values(pre).update(
                            slot as int,
                            vv,
                        ));
                    }
                    StepOutcome::KeepGoing
                } else {
                    StepOutcome::Failed(
                        RuntimeError::Fault {
                            line,
                            message: "global slot out of range".to_owned(),
                        },
                    )
                }
            },

            Op::Print => {
                let v = match self.pop_value(line) {
                    Result::Ok(x) => x,
                    Result::Err(e) => {
                        return StepOutcome::Failed(e);
                    },
                };
                proof {
                    lemma_vv_snoc(self.output@, v);
                }
                self.output.push(v);
                StepOutcome::KeepGoing
            },

            Op::Return => StepOutcome::Finished,

            Op::Tuple(n) => {
                if self.stack.len() < n {
                    proof {
                        lemma_view_values(self.stack@);
                    }
                    return StepOutcome::Failed(
                        RuntimeError::Fault { line, message: "stack underflow".to_owned() },
                    );
                }
                let ghost pre = self.stack@;
                let at = self.stack.len() - n;
                let tail = self.stack.split_off(at);
                proof {
                    lemma_view_values(pre);
                    lemma_vv_subrange(pre, 0, at as int);
                    lemma_vv_subrange(pre, at as int, pre.len() as int);
                    assert(view_values(self.stack@) =~= view_values(pre).take(at as int));
                    assert(view_values(tail@) =~= view_values(pre).skip(at as int));
                }
                self.push_value(Value::Tuple(tail));
                StepOutcome::KeepGoing
            },

            Op::List(n) => {
                if self.stack.len() < n {
                    proof {
                        lemma_view_values(self.stack@);
                    }
                    return StepOutcome::Failed(
                        RuntimeError::Fault { line, message: "stack underflow".to_owned() },
                    );
                }
                let ghost pre = self.stack@;
                let at = self.stack.len() - n;
                let tail = self.stack.split_off(at);
                proof {
                    lemma_view_values(pre);
                    lemma_vv_subrange(pre, 0, at as int);
                    lemma_vv_subrange(pre, at as int, pre.len() as int);
                    assert(view_values(self.stack@) =~= view_values(pre).take(at as int));
                    assert(view_values(tail@) =~= view_values(pre).skip(at as int));
                }
                let h = self.heap.new_list(tail);
                self.push_value(Value::List(h));
                StepOutcome::KeepGoing
            },

            Op::SetCol(n) => {
                if self.stack.len() < n {
                    proof {
                        lemma_view_values(self.stack@);
                    }
                    return StepOutcome::Failed(
                        RuntimeError::Fault { line, message: "stack underflow".to_owned() },
                    );
                }
                let ghost pre = self.stack@;
                let at = self.stack.len() - n;
                let tail = self.stack.split_off(at);
                proof {
                    lemma_view_values(pre);
                    lemma_vv_subrange(pre, 0, at as int);
                    lemma_vv_subrange(pre, at as int, pre.len() as int);
                    assert(view_values(self.stack@) =~= view_values(pre).take(at as int));
                    assert(view_values(tail@) =~= view_values(pre).skip(at as int));
                }
                let elems = dedup_values(&tail);
                let h = self.heap.new_set(elems);
                self.push_value(Value::SetCol(h));
                StepOutcome::KeepGoing
            },

            Op::Dict(n) => {
                if self.stack.len() < n || n % 2 != 0 {
                    proof {
                        lemma_view_values(self.stack@);
                    }
                    return StepOutcome::Failed(
                        RuntimeError::Fault { line, message: "stack underflow".to_owned() },
                    );
                }
                let ghost pre = self.stack@;
                let at = self.stack.len() - n;
                let tail = self.stack.split_off(at);
                proof {
                    lemma_view_values(pre);
                    lemma_vv_subrange(pre, 0, at as int);
                    lemma_vv_subrange(pre, at as int, pre.len() as int);
                    assert(view_values(self.stack@) =~= view_values(pre).take(at as int));
                    assert(view_values(tail@) =~= view_values(pre).skip(at as int));
                }
                let (keys, vals) = split_pairs(tail);
                let h = self.heap.new_dict(keys, vals);
                self.push_value(Value::Dict(h));
                StepOutcome::KeepGoing
            },
        }
    }
}

/// Removes later structural duplicates; see [`dedup`].
#[verifier::loop_isolation(false)]
fn dedup_values(vs: &Vec<Value>) -> (r: Vec<Value>)
    ensures
        view_values(r@) == dedup(view_values(vs@)),
{
    let mut out: Vec<Value> = Vec::new();
    let mut i: usize = 0;
    proof {
        lemma_view_values(vs@);
        assert(view_values(vs@).subrange(0, 0) =~= Seq::<ValueV>::empty());
        assert(view_values(out@) =~= Seq::<ValueV>::empty());
    }
    while i < vs.len()
        invariant
            i <= vs@.len(),
            view_values(out@) == dedup(view_values(vs@).subrange(0, i as int)),
        decreases vs@.len() - i,
    {
        let ghost vv = view_values(vs@);
        let mut seen = false;
        let mut j: usize = 0;
        proof {
            crate::value::lemma_eq_any_member_exists(vv[i as int], vv.subrange(0, i as int));
        }
        while j < i
            invariant
                j <= i,
                i < vs@.len(),
                !seen ==> forall|k: int|
                    0 <= k < j ==> !spec_value_eq(vv[i as int], #[trigger] vv.subrange(
                        0,
                        i as int,
                    )[k]),
                seen ==> crate::value::spec_eq_any_member(vv[i as int], vv.subrange(0, i as int)),
            decreases i - j,
        {
            if value_eq(&vs[i], &vs[j]) {
                proof {
                    assert(vv.subrange(0, i as int)[j as int] == vv[j as int]);
                }
                seen = true;
                j = i;
            } else {
                proof {
                    assert(vv.subrange(0, i as int)[j as int] == vv[j as int]);
                }
                j = j + 1;
            }
        }
        if !seen {
            let c = vs[i].clone();
            proof {
                lemma_vv_snoc(out@, c);
            }
            out.push(c);
        }
        proof {
            assert(vv.subrange(0, i + 1).drop_last() =~= vv.subrange(0, i as int));
            assert(vv.subrange(0, i + 1).last() == vv[i as int]);
        }
        i = i + 1;
    }
    proof {
        assert(view_values(vs@).subrange(0, vs@.len() as int) =~= view_values(vs@));
    }
    out
}

/// Splits an interleaved key-value run into keys and values; see
/// [`pairs`].
#[verifier::loop_isolation(false)]
fn split_pairs(vs: Vec<Value>) -> (r: (Vec<Value>, Vec<Value>))
    requires
        vs@.len() % 2 == 0,
    ensures
        r.0@.len() == r.1@.len(),
        view_dict_pairs(r.0@, r.1@) == pairs(view_values(vs@)),
    decreases vs@.len(),
{
    let mut keys: Vec<Value> = Vec::new();
    let mut vals: Vec<Value> = Vec::new();
    let mut vs = vs;
    let ghost vv = view_values(vs@);
    proof {
        lemma_view_values(vs@);
    }
    let mut i: usize = 0;
    while i + 1 < vs.len()
        invariant
            i <= vs@.len(),
            i % 2 == 0,
            vs@.len() % 2 == 0,
            vv == view_values(vs@),
            keys@.len() == i / 2,
            vals@.len() == i / 2,
            forall|k: int|
                0 <= k < i / 2 ==> view_value(#[trigger] keys@[k]) == vv[2 * k] && view_value(
                    vals@[k],
                ) == vv[2 * k + 1],
        decreases vs@.len() - i,
    {
        let k = vs[i].clone();
        let v = vs[i + 1].clone();
        keys.push(k);
        vals.push(v);
        i = i + 2;
    }
    proof {
        assert(view_dict_pairs(keys@, vals@) =~= pairs(vv));
    }
    (keys, vals)
}

/// The view of parallel key and value vectors as a pair sequence.
pub open spec fn view_dict_pairs(keys: Seq<Value>, vals: Seq<Value>) -> Seq<(ValueV, ValueV)> {
    crate::heap::view_dict_slot(keys, vals)
}

impl VM {
    /// Runs one block to completion or to a runtime error; the result
    /// and final state are exactly [`run_spec`] from the start of the
    /// block.
    #[verifier::loop_isolation(false)]
    pub fn run_block(&mut self, block: &Block, consts: &Vec<Value>) -> (r: Result<
        (),
        RuntimeError,
    >)
        requires
            heap_wf(old(self).heap),
            crate::compiler::block_wf(*block),
        ensures
            heap_wf(final(self).heap),
            match run_spec(old(self)@, view_values(consts@), block.ops@, block.lines@, 0) {
                RunR::Finished(s2) => r is Ok && final(self)@ == s2,
                RunR::Failed(e) => r matches Result::Err(err) && err@ == e,
            },
    {
        let ghost cv = view_values(consts@);
        let ghost entry = self@;
        let mut ip: usize = 0;
        while ip < block.ops.len()
            invariant
                ip <= block.ops@.len(),
                heap_wf(self.heap),
                run_spec(entry, cv, block.ops@, block.lines@, 0) == run_spec(
                    self@,
                    cv,
                    block.ops@,
                    block.lines@,
                    ip as int,
                ),
            decreases block.ops@.len() - ip,
        {
            let op = block.ops[ip];
            let line = block.lines[ip];
            match self.step(consts, op, line) {
                StepOutcome::KeepGoing => {},
                StepOutcome::Finished => {
                    return Ok(());
                },
                StepOutcome::Failed(e) => {
                    return Err(e);
                },
            }
            ip = ip + 1;
        }
        Ok(())
    }
}

} // verus!

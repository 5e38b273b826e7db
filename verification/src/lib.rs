use vstd::prelude::*;

pub mod ast;
pub mod bindings;
pub mod compiler;
pub mod convert;
pub mod error;
pub mod expression;
pub mod hash;
pub mod heap;
pub mod parser;
pub mod timing;
pub mod token;
pub mod value;
pub mod vm;

verus! {

broadcast use vstd::seq::axiom_seq_index_decreases, vstd::std_specs::vec::axiom_vec_decreases_to_view;

use crate::compiler::{block_wf, last_pos, Prog};
use crate::error::{Error, ErrorV};
use crate::value::{view_values, Value, ValueV};
use crate::vm::{run_spec, RunR, VmV, VM};
use vstd::string::StringExecFns;

/// One source position: the line a token or AST node came from.
#[derive(Clone, Copy, PartialEq, Eq, Structural, Debug)]
pub struct Span {
    pub line: usize,
}

/// The embedding program's options: the file to run, and how it should
/// be handled. Argument parsing itself stays with the embedding; only
/// the option record lives here.
#[derive(Debug)]
pub struct Args {
    pub file: Option<String>,
    pub is_binary: bool,
    pub compile_target: Option<String>,
    pub verbosity: u32,
    pub help: bool,
}

impl Default for Args {
    /// No file, nothing set.
    fn default() -> (a: Args)
        ensures
            a.file is None,
            !a.is_binary,
            a.compile_target is None,
            a.verbosity == 0,
            !a.help,
    {
        Args { file: None, is_binary: false, compile_target: None, verbosity: 0, help: false }
    }
}

/// The sibling-file path of a module: the importing file's directory,
/// then `<module>.sy`.
pub open spec fn spec_path_to_module(current_file: Seq<char>, module: Seq<char>) -> Seq<char> {
    match last_pos(current_file, '/') {
        Option::Some(i) => current_file.take(i + 1) + module + ".sy"@,
        Option::None => module + ".sy"@,
    }
}

/// Resolves a module name to a sibling file of the importing file:
/// `<dir-of-current>/<module>.sy`. This path rule is the only
/// filesystem contract the core depends on.
#[verifier::loop_isolation(false)]
pub fn path_to_module(current_file: &str, module: &str) -> (r: String)
    ensures
        r@ == spec_path_to_module(current_file@, module@),
{
    proof {
        crate::compiler::lemma_last_pos(current_file@, '/');
    }
    let n = current_file.unicode_len();
    let mut res: String = String::new();
    let mut i: usize = n;
    let mut found = false;
    while i > 0
        invariant
            i <= n,
            n as nat == current_file@.len(),
            !found ==> forall|k: int| i <= k < n ==> current_file@[k] != '/',
            found ==> (last_pos(current_file@, '/') matches Option::Some(j) && j == i - 1),
        decreases i,
    {
        if current_file.get_char(i - 1) == '/' {
            found = true;
            proof {
                match last_pos(current_file@, '/') {
                    Option::Some(j) => {
                        if j < i - 1 {
                            assert(current_file@[i - 1] != '/');
                        }
                        if j > i - 1 {
                            assert(current_file@[j] != '/');
                        }
                    },
                    Option::None => {
                        assert(current_file@[i - 1] != '/');
                    },
                }
            }
            break ;
        }
        i = i - 1;
    }
    if found {
        let dir = current_file.substring_char(0, i);
        res.append(dir);
    }
    res.append(module);
    res.append(".sy");
    res
}

/// Runs a compiled program's entry block on a fresh machine and hands
/// back what it printed; a runtime error comes back as a list of one.
/// The machine's exact behaviour is [`run_spec`] over the entry block.
pub fn run_collect(prog: &Prog, args: &Args) -> (r: Result<Vec<Value>, Vec<Error>>)
    requires
        prog.blocks@.len() > 0,
        block_wf(prog.blocks@[0]),
    ensures
        match run_spec(
            VmV {
                stack: Seq::empty(),
                heap: crate::heap::HeapV {
                    lists: Seq::empty(),
                    sets: Seq::empty(),
                    dicts: Seq::empty(),
                    instances: Seq::empty(),
                    cells: Seq::empty(),
                    iters: 0,
                },
                output: Seq::empty(),
                typecheck: false,
            },
            view_values(prog.constants@),
            prog.blocks@[0].ops@,
            prog.blocks@[0].lines@,
            0,
        ) {
            RunR::Finished(s2) => r matches Result::Ok(out) && view_values(out@) == s2.output,
            RunR::Failed(e) => r matches Result::Err(es) && es@.len() == 1 && (es@[0]@
                matches ErrorV::RuntimeError { error } && error == e),
        },
{
    let mut vm = VM::new(false);
    vm.print_bytecode = args.verbosity >= 1;
    vm.print_exec = args.verbosity >= 2;
    proof {
        assert(vm@.heap.lists =~= Seq::<Seq<ValueV>>::empty());
        assert(vm@.heap.sets =~= Seq::<Seq<ValueV>>::empty());
        assert(vm@.heap.dicts =~= Seq::<Seq<(ValueV, ValueV)>>::empty());
        assert(vm@.heap.instances =~= Seq::<Seq<(Seq<char>, ValueV)>>::empty());
        assert(vm@.heap.cells =~= Seq::<ValueV>::empty());
    }
    match vm.run_block(&prog.blocks[0], &prog.constants) {
        Result::Ok(()) => Ok(vm.output),
        Result::Err(e) => {
            let mut es: Vec<Error> = Vec::new();
            es.push(Error::RuntimeError { error: e });
            Err(es)
        },
    }
}

/// Runs a compiled program's entry block to completion or to a runtime
/// error, discarding what it printed; see [`run_collect`].
pub fn run(prog: &Prog, args: &Args) -> (r: Result<(), Vec<Error>>)
    requires
        prog.blocks@.len() > 0,
        block_wf(prog.blocks@[0]),
    ensures
        match run_spec(
            VmV {
                stack: Seq::empty(),
                heap: crate::heap::HeapV {
                    lists: Seq::empty(),
                    sets: Seq::empty(),
                    dicts: Seq::empty(),
                    instances: Seq::empty(),
                    cells: Seq::empty(),
                    iters: 0,
                },
                output: Seq::empty(),
                typecheck: false,
            },
            view_values(prog.constants@),
            prog.blocks@[0].ops@,
            prog.blocks@[0].lines@,
            0,
        ) {
            RunR::Finished(s2) => r is Ok,
            RunR::Failed(e) => r matches Result::Err(es) && es@.len() == 1 && (es@[0]@
                matches ErrorV::RuntimeError { error } && error == e),
        },
{
    match run_collect(prog, args) {
        Result::Ok(_) => Ok(()),
        Result::Err(es) => Err(es),
    }
}

/// Runs a compiled program's entry block as a static check: the same
/// bytecode, with the machine in typecheck mode, where the `Unknown`
/// placeholder propagates through operations instead of failing. No
/// real extern effect is performed — placeholder values stand in.
pub fn typecheck(prog: &Prog, args: &Args) -> (r: Result<(), Vec<Error>>)
    requires
        prog.blocks@.len() > 0,
        block_wf(prog.blocks@[0]),
    ensures
        match run_spec(
            VmV {
                stack: Seq::empty(),
                heap: crate::heap::HeapV {
                    lists: Seq::empty(),
                    sets: Seq::empty(),
                    dicts: Seq::empty(),
                    instances: Seq::empty(),
                    cells: Seq::empty(),
                    iters: 0,
                },
                output: Seq::empty(),
                typecheck: true,
            },
            view_values(prog.constants@),
            prog.blocks@[0].ops@,
            prog.blocks@[0].lines@,
            0,
        ) {
            RunR::Finished(s2) => r is Ok,
            RunR::Failed(e) => r matches Result::Err(es) && es@.len() == 1 && (es@[0]@
                matches ErrorV::RuntimeError { error } && error == e),
        },
{
    let mut vm = VM::new(true);
    vm.print_bytecode = args.verbosity >= 1;
    vm.print_exec = args.verbosity >= 2;
    proof {
        assert(vm@.heap.lists =~= Seq::<Seq<ValueV>>::empty());
        assert(vm@.heap.sets =~= Seq::<Seq<ValueV>>::empty());
        assert(vm@.heap.dicts =~= Seq::<Seq<(ValueV, ValueV)>>::empty());
        assert(vm@.heap.instances =~= Seq::<Seq<(Seq<char>, ValueV)>>::empty());
        assert(vm@.heap.cells =~= Seq::<ValueV>::empty());
    }
    match vm.run_block(&prog.blocks[0], &prog.constants) {
        Result::Ok(()) => Ok(()),
        Result::Err(e) => {
            let mut es: Vec<Error> = Vec::new();
            es.push(Error::RuntimeError { error: e });
            Err(es)
        },
    }
}

} // verus!

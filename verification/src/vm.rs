//! The stack machine: a fixed-capacity operand stack and an instruction
//! pointer over a flat byte stream. `OP_CONSTANT` pushes a pooled constant;
//! `OP_ADD` pops two integers (right first) and pushes their sum. Overruns,
//! bad operands and overflow are reported errors, never faults.
use vstd::prelude::*;
use crate::code::{Instructions, OpCode, OP_ADD, OP_CONSTANT};
use crate::compiler::ByteCode;
use crate::object::{clone_obj_vec, clone_object, obj_v, objs_v, Object, ObjectV};

verus! {

/// The operand stack's fixed capacity.
pub const STACK_SIZE: usize = 2048;

/// How a run of the machine fails.
#[derive(Debug, Clone, Copy, PartialEq, Eq, Structural)]
pub enum VmError {
    StackOverflow,
    StackUnderflow,
    TypeMismatch,
    IntegerOverflow,
    BadConstantIndex,
    TruncatedInstruction,
}

/// What running the machine from instruction pointer `ip` yields: the final
/// operand stack, or the first failure. An unknown opcode is skipped.
pub open spec fn vm_run_v(
    instrs: Seq<u8>,
    consts: Seq<ObjectV>,
    ip: int,
    stack: Seq<ObjectV>,
) -> Result<Seq<ObjectV>, VmError>
    decreases instrs.len() - ip,
{
    if ip < 0 || ip >= instrs.len() {
        Ok(stack)
    } else {
        let op = instrs[ip];
        if op == OP_CONSTANT {
            if ip + 3 > instrs.len() {
                Err(VmError::TruncatedInstruction)
            } else {
                let idx = (instrs[ip + 1] as int) * 256 + (instrs[ip + 2] as int);
                if idx >= consts.len() {
                    Err(VmError::BadConstantIndex)
                } else if stack.len() >= STACK_SIZE {
                    Err(VmError::StackOverflow)
                } else {
                    vm_run_v(instrs, consts, ip + 3, stack.push(consts[idx]))
                }
            }
        } else if op == OP_ADD {
            if stack.len() < 2 {
                Err(VmError::StackUnderflow)
            } else {
                let right = stack.last();
                let left = stack[stack.len() - 2];
                match (left, right) {
                    (ObjectV::Integer(x), ObjectV::Integer(y)) => if x + y > i64::MAX || x + y
                        < i64::MIN {
                        Err(VmError::IntegerOverflow)
                    } else {
                        vm_run_v(
                            instrs,
                            consts,
                            ip + 1,
                            stack.drop_last().drop_last().push(ObjectV::Integer(x + y)),
                        )
                    },
                    _ => Err(VmError::TypeMismatch),
                }
            }
        } else {
            vm_run_v(instrs, consts, ip + 1, stack)
        }
    }
}

/// The virtual machine: its constants, its instruction stream, and the
/// operand stack with its pointer.
#[derive(Debug)]
pub struct VM {
    pub constants: Vec<Object>,
    pub instructions: Instructions,
    stack: Vec<Object>,
    sp: usize,
}

impl VM {
    /// The stack pointer counts the stack's elements, within capacity.
    pub closed spec fn wf(&self) -> bool {
        self.sp == self.stack@.len() && self.sp <= STACK_SIZE
    }

    /// The operand stack's view, bottom first.
    pub closed spec fn stack_v(&self) -> Seq<ObjectV> {
        objs_v(self.stack@)
    }

    /// The instruction stream's view.
    pub closed spec fn instrs(&self) -> Seq<u8> {
        self.instructions@
    }

    /// The constants pool's view.
    pub closed spec fn consts_v(&self) -> Seq<ObjectV> {
        objs_v(self.constants@)
    }

    /// A fresh machine over compiled output, with an empty stack.
    pub fn new(byte_code: &ByteCode) -> (vm: Self)
        ensures
            vm.wf(),
            vm.instrs() == byte_code.instructions@,
            vm.consts_v() == objs_v(byte_code.constants@),
            vm.stack_v() == Seq::<ObjectV>::empty(),
    {
        let vm = VM {
            constants: clone_obj_vec(&byte_code.constants),
            instructions: clone_bytes_vm(&byte_code.instructions),
            stack: Vec::new(),
            sp: 0,
        };
        proof {
            assert(vm.stack_v() =~= Seq::<ObjectV>::empty());
        }
        vm
    }

    /// The value on top of the operand stack, `Null` if it is empty; the
    /// stack is not changed.
    pub fn stack_top(&self) -> (r: Object)
        requires
            self.wf(),
        ensures
            obj_v(r) == if self.stack_v().len() == 0 {
                ObjectV::Null
            } else {
                self.stack_v().last()
            },
    {
        if self.sp == 0 {
            return Object::Null;
        }
        clone_object(&self.stack[self.sp - 1])
    }

    /// Run the whole instruction stream, as `vm_run_v` states it; on success
    /// the operand stack is exactly what the run yields.
    pub fn run(&mut self) -> (r: Result<(), VmError>)
        requires
            old(self).wf(),
        ensures
            final(self).wf(),
            final(self).instrs() == old(self).instrs(),
            final(self).consts_v() == old(self).consts_v(),
            ({
                let rv = vm_run_v(
                    old(self).instrs(),
                    old(self).consts_v(),
                    0,
                    old(self).stack_v(),
                );
                match r {
                    Ok(()) => rv == Ok::<Seq<ObjectV>, VmError>(final(self).stack_v()),
                    Err(e) => rv == Err::<Seq<ObjectV>, VmError>(e),
                }
            }),
    {
        self.run_from(0)
    }

    /// Run the instructions from `ip` on.
    fn run_from(&mut self, ip: usize) -> (r: Result<(), VmError>)
        requires
            old(self).wf(),
        ensures
            final(self).wf(),
            final(self).instrs() == old(self).instrs(),
            final(self).consts_v() == old(self).consts_v(),
            ({
                let rv = vm_run_v(
                    old(self).instrs(),
                    old(self).consts_v(),
                    ip as int,
                    old(self).stack_v(),
                );

                match r {
                    Ok(()) => rv == Ok::<Seq<ObjectV>, VmError>(final(self).stack_v()),
                    Err(e) => rv == Err::<Seq<ObjectV>, VmError>(e),
                }
            }),
        decreases old(self).instrs().len() - ip,
    {
        if ip >= self.instructions.len() {
            return Ok(());
        }
        let opcode: OpCode = self.instructions[ip];
        if opcode == OP_CONSTANT {
            if self.instructions.len() - ip < 3 {
                return Err(VmError::TruncatedInstruction);
            }
            let hi = self.instructions[ip + 1];
            let lo = self.instructions[ip + 2];
            let constant_index: usize = (hi as usize) * 256 + (lo as usize);
            if constant_index >= self.constants.len() {
                return Err(VmError::BadConstantIndex);
            }
            let value = clone_object(&self.constants[constant_index]);
            match self.push(value) {
                Ok(()) => {},
                Err(e) => {
                    return Err(e);
                },
            }
            self.run_from(ip + 3)
        } else if opcode == OP_ADD {
            if self.sp < 2 {
                return Err(VmError::StackUnderflow);
            }
            let right = match self.stack.pop() {
                Some(o) => o,
                None => {
                    return Err(VmError::StackUnderflow);
                },
            };
            let left = match self.stack.pop() {
                Some(o) => o,
                None => {
                    return Err(VmError::StackUnderflow);
                },
            };
            self.sp = self.sp - 2;
            proof {
                assert(objs_v(self.stack@) =~= old(self).stack_v().drop_last().drop_last());
                assert(obj_v(left) == old(self).stack_v()[old(self).stack_v().len() - 2]);
                assert(obj_v(right) == old(self).stack_v().last());
            }
            let sum = match (left, right) {
                (Object::Integer { value: x }, Object::Integer { value: y }) => {
                    match x.checked_add(y) {
                        Some(v) => v,
                        None => {
                            return Err(VmError::IntegerOverflow);
                        },
                    }
                },
                _ => {
                    return Err(VmError::TypeMismatch);
                },
            };
            match self.push(Object::Integer { value: sum }) {
                Ok(()) => {},
                Err(e) => {
                    return Err(e);
                },
            }
            self.run_from(ip + 1)
        } else {
            self.run_from(ip + 1)
        }
    }

    /// Push a value; a stack grown to its capacity reports an overflow
    /// instead of faulting.
    pub fn push(&mut self, object: Object) -> (r: Result<(), VmError>)
        requires
            old(self).wf(),
        ensures
            final(self).wf(),
            final(self).instrs() == old(self).instrs(),
            final(self).consts_v() == old(self).consts_v(),
            match r {
                Ok(()) => old(self).stack_v().len() < STACK_SIZE && final(self).stack_v() == old(
                    self,
                ).stack_v().push(obj_v(object)),
                Err(e) => e == VmError::StackOverflow && old(self).stack_v().len() >= STACK_SIZE
                    && final(self).stack_v() == old(self).stack_v(),
            },
    {
        if self.sp >= STACK_SIZE {
            return Err(VmError::StackOverflow);
        }
        self.stack.push(object);
        self.sp = self.sp + 1;
        proof {
            assert(self.stack_v() =~= old(self).stack_v().push(obj_v(object)));
        }
        Ok(())
    }
}

/// Copy a byte buffer.
fn clone_bytes_vm(v: &Vec<u8>) -> (r: Vec<u8>)
    ensures
        r@ == v@,
{
    let mut out: Vec<u8> = Vec::new();
    let n = v.len();
    let mut i: usize = 0;
    while i < n
        invariant
            n == v@.len(),
            i <= n,
            out@ == v@.take(i as int),
        decreases n - i,
    {
        out.push(v[i]);
        proof {
            assert(out@ =~= v@.take(i + 1));
        }
        i = i + 1;
    }
    proof {
        assert(v@.take(n as int) =~= v@);
    }
    out
}

} // verus!

//! The bytecode compiler: a single pass over the syntax tree that emits
//! instructions into a flat byte buffer and literal values into a parallel
//! constants pool. The supported subset is integer literals and `+`; every
//! other construct fails compilation with an explicit error.
use vstd::prelude::*;
use crate::ast::{Expression, Program, Statement};
use crate::code::{make_v, Definitions, Instructions, OpCode, OP_ADD, OP_CONSTANT};
use crate::object::{clone_obj_vec, lemma_objs_v_rec, obj_v, objs_v, Object, ObjectV};

verus! {

/// How a compilation fails.
#[derive(Debug, Clone, Copy, PartialEq, Eq, Structural)]
pub enum CompileError {
    UnsupportedConstruct,
}

/// What compiling an expression emits, given `nconsts` constants already in
/// the pool: the instruction bytes and the constants appended by this
/// expression, or nothing for an unsupported construct.
pub open spec fn compile_expr_c(e: Expression, nconsts: int) -> Option<(Seq<u8>, Seq<ObjectV>)>
    decreases e,
{
    match e {
        Expression::IntegerLiteral { value, .. } => Some(
            (
                make_v(OP_CONSTANT, seq![(nconsts as usize) as i64]),
                seq![ObjectV::Integer(value as int)],
            ),
        ),
        Expression::InfixExpression { left, operator, right, .. } => {
            match compile_expr_c(*left, nconsts) {
                None => None,
                Some((c1, k1)) => match compile_expr_c(*right, nconsts + k1.len()) {
                    None => None,
                    Some((c2, k2)) => if operator@ == "+"@ {
                        Some((c1 + c2 + seq![OP_ADD], k1 + k2))
                    } else {
                        None
                    },
                },
            }
        },
        _ => None,
    }
}

/// What compiling a statement emits: only expression statements compile.
pub open spec fn compile_stmt_c(s: Statement, nconsts: int) -> Option<(Seq<u8>, Seq<ObjectV>)> {
    match s {
        Statement::ExpressionStatement { expression, .. } => compile_expr_c(expression, nconsts),
        _ => None,
    }
}

/// What compiling the statements from index `i` on emits: their code and
/// constants concatenated in order, or nothing on the first failure.
pub open spec fn compile_stmts_c(ss: Seq<Statement>, i: int, nconsts: int) -> Option<
    (Seq<u8>, Seq<ObjectV>),
>
    decreases ss.len() - i,
{
    if i < 0 || i >= ss.len() {
        Some((Seq::empty(), Seq::empty()))
    } else {
        match compile_stmt_c(ss[i], nconsts) {
            None => None,
            Some((c1, k1)) => match compile_stmts_c(ss, i + 1, nconsts + k1.len()) {
                None => None,
                Some((c2, k2)) => Some((c1 + c2, k1 + k2)),
            },
        }
    }
}

/// The compiler's output: the instruction stream and the constants pool.
#[derive(Debug)]
pub struct ByteCode {
    pub instructions: Instructions,
    pub constants: Vec<Object>,
}

/// The compiler: the instructions and constants accumulated so far, and the
/// opcode table used to encode instructions.
#[derive(Debug)]
pub struct Compiler {
    pub instructions: Instructions,
    pub constants: Vec<Object>,
    pub definitions: Definitions,
}

impl Compiler {
    /// The opcode table is intact.
    pub open spec fn wf(&self) -> bool {
        self.definitions.wf()
    }

    pub fn new() -> (c: Self)
        ensures
            c.wf(),
            c.instructions@ == Seq::<u8>::empty(),
            c.constants@ == Seq::<Object>::empty(),
    {
        Compiler { instructions: Vec::new(), constants: Vec::new(), definitions: Definitions::new() }
    }

    /// Compile a whole program: each statement in order, stopping at the
    /// first unsupported construct.
    pub fn compile_program(&mut self, program: Program) -> (r: Result<(), CompileError>)
        requires
            old(self).wf(),
        ensures
            final(self).wf(),
            ({
                match compile_stmts_c(program.statements@, 0, old(self).constants@.len() as int) {
                    Some((code, ks)) => r is Ok && final(self).instructions@ == old(
                        self,
                    ).instructions@ + code && objs_v(final(self).constants@) == objs_v(
                        old(self).constants@,
                    ) + ks,
                    None => r is Err,
                }
            }),
    {
        self.compile_statements(&program.statements, 0)
    }

    /// Compile the statements from index `i` on.
    fn compile_statements(&mut self, statements: &Vec<Statement>, i: usize) -> (r: Result<
        (),
        CompileError,
    >)
        requires
            old(self).wf(),
            i <= statements@.len(),
        ensures
            final(self).wf(),
            ({
                match compile_stmts_c(statements@, i as int, old(self).constants@.len() as int) {
                    Some((code, ks)) => r is Ok && final(self).instructions@ == old(
                        self,
                    ).instructions@ + code && objs_v(final(self).constants@) == objs_v(
                        old(self).constants@,
                    ) + ks,
                    None => r is Err,
                }
            }),
        decreases statements@.len() - i,
    {
        if i >= statements.len() {
            proof {
                assert(old(self).instructions@ + Seq::<u8>::empty() =~= old(self).instructions@);
                assert(objs_v(old(self).constants@) + Seq::<ObjectV>::empty() =~= objs_v(
                    old(self).constants@,
                ));
            }
            return Ok(());
        }
        match self.compile_statement(&statements[i]) {
            Ok(()) => {},
            Err(e) => {
                return Err(e);
            },
        }
        let r = self.compile_statements(statements, i + 1);
        proof {
            if r is Ok {
                let n0 = old(self).constants@.len() as int;
                match compile_stmt_c(statements@[i as int], n0) {
                    Some((c1, k1)) => {
                        match compile_stmts_c(statements@, i + 1, n0 + k1.len()) {
                            Some((c2, k2)) => {
                                assert(self.instructions@ =~= old(self).instructions@ + (c1 + c2));
                                assert(objs_v(self.constants@) =~= objs_v(old(self).constants@) + (
                                k1 + k2));
                            },
                            None => {},
                        }
                    },
                    None => {},
                }
            }
        }
        r
    }

    /// Compile one statement: only an expression statement is supported.
    pub fn compile_statement(&mut self, statement: &Statement) -> (r: Result<(), CompileError>)
        requires
            old(self).wf(),
        ensures
            final(self).wf(),
            ({
                match compile_stmt_c(*statement, old(self).constants@.len() as int) {
                    Some((code, ks)) => r is Ok && final(self).instructions@ == old(
                        self,
                    ).instructions@ + code && objs_v(final(self).constants@) == objs_v(
                        old(self).constants@,
                    ) + ks,
                    None => r is Err,
                }
            }),
    {
        match statement {
            Statement::ExpressionStatement { expression, .. } => self.compile_expression(
                expression,
            ),
            _ => Err(CompileError::UnsupportedConstruct),
        }
    }

    /// Compile one expression: an integer literal emits a constant push, a
    /// `+` emits its operands then the add; everything else is unsupported.
    pub fn compile_expression(&mut self, expression: &Expression) -> (r: Result<(), CompileError>)
        requires
            old(self).wf(),
        ensures
            final(self).wf(),
            ({
                match compile_expr_c(*expression, old(self).constants@.len() as int) {
                    Some((code, ks)) => r is Ok && final(self).instructions@ == old(
                        self,
                    ).instructions@ + code && objs_v(final(self).constants@) == objs_v(
                        old(self).constants@,
                    ) + ks,
                    None => r is Err,
                }
            }),
        decreases *expression,
    {
        match expression {
            Expression::InfixExpression { left, operator, right, .. } => {
                if !str_is_plus(operator) {
                    return Err(CompileError::UnsupportedConstruct);
                }
                match self.compile_expression(&*left) {
                    Ok(()) => {},
                    Err(e) => {
                        return Err(e);
                    },
                }
                proof {
                    let n0 = old(self).constants@.len() as int;
                    match compile_expr_c(**left, n0) {
                        Some((c1, k1)) => {
                            assert(objs_v(self.constants@) == objs_v(old(self).constants@) + k1);
                        },
                        None => {
                            assert(false);
                        },
                    }
                }
                let ghost mid = self.constants@;
                match self.compile_expression(&*right) {
                    Ok(()) => {},
                    Err(e) => {
                        proof {
                            let n0 = old(self).constants@.len() as int;
                            match compile_expr_c(**left, n0) {
                                Some((c1, k1)) => {
                                    assert(objs_v(mid) == objs_v(old(self).constants@) + k1);
                                    assert(mid.len() as int == n0 + k1.len());
                                    assert(compile_expr_c(**right, n0 + k1.len()) is None);
                                },
                                None => {
                                    assert(false);
                                },
                            }
                        }
                        return Err(e);
                    },
                }
                let no_operands: Vec<i64> = Vec::new();
                self.emit(OP_ADD, no_operands);
                proof {
                    let n0 = old(self).constants@.len() as int;
                    match compile_expr_c(**left, n0) {
                        Some((c1, k1)) => {
                            match compile_expr_c(**right, n0 + k1.len()) {
                                Some((c2, k2)) => {
                                    assert(self.instructions@ =~= old(self).instructions@ + (c1 + c2
                                        + seq![OP_ADD]));
                                    assert(objs_v(self.constants@) =~= objs_v(
                                        old(self).constants@,
                                    ) + (k1 + k2));
                                },
                                None => {},
                            }
                        },
                        None => {},
                    }
                }
                Ok(())
            },
            Expression::IntegerLiteral { value, .. } => {
                let constant = Object::Integer { value: *value };
                let idx = self.add_constant(constant);
                let mut operands: Vec<i64> = Vec::new();
                operands.push(#[verifier::truncate] (idx as i64));
                proof {
                    assert(idx as int == old(self).constants@.len() as int);
                    assert(((old(self).constants@.len() as int) as usize) == idx);
                    assert(operands@ =~= seq![((old(self).constants@.len() as int) as usize)
                        as i64]);
                }
                self.emit(OP_CONSTANT, operands);
                proof {
                    assert(self.instructions@ =~= old(self).instructions@ + make_v(
                        OP_CONSTANT,
                        seq![((old(self).constants@.len() as int) as usize) as i64],
                    ));
                    assert(objs_v(self.constants@) =~= objs_v(old(self).constants@) + seq![
                        ObjectV::Integer(*value as int),
                    ]);
                }
                Ok(())
            },
            _ => Err(CompileError::UnsupportedConstruct),
        }
    }

    /// The output accumulated so far, as copies with the same views.
    pub fn byte_code(&self) -> (bc: ByteCode)
        ensures
            bc.instructions@ == self.instructions@,
            objs_v(bc.constants@) == objs_v(self.constants@),
    {
        ByteCode { instructions: clone_bytes(&self.instructions), constants: clone_obj_vec(&self.constants) }
    }

    /// Add a literal to the constants pool; its index is returned.
    fn add_constant(&mut self, object: Object) -> (idx: usize)
        ensures
            final(self).constants@ == old(self).constants@.push(object),
            idx == old(self).constants@.len(),
            final(self).instructions == old(self).instructions,
            final(self).definitions == old(self).definitions,
    {
        self.constants.push(object);
        self.constants.len() - 1
    }

    /// Encode and append one instruction; its position is returned.
    pub fn emit(&mut self, opcode: OpCode, operands: Vec<i64>) -> (position: usize)
        requires
            old(self).wf(),
        ensures
            final(self).wf(),
            final(self).instructions@ == old(self).instructions@ + make_v(opcode, operands@),
            position == old(self).instructions@.len(),
            final(self).constants == old(self).constants,
            final(self).definitions == old(self).definitions,
    {
        let mut instruction = self.definitions.make(opcode, operands);
        let position = self.add_instruction(&mut instruction);
        position
    }

    /// Append already-encoded bytes; their position is returned, and the
    /// appended buffer is drained.
    pub fn add_instruction(&mut self, instruction: &mut Instructions) -> (position: usize)
        ensures
            final(self).instructions@ == old(self).instructions@ + old(instruction)@,
            final(instruction)@ == Seq::<u8>::empty(),
            position == old(self).instructions@.len(),
            final(self).constants == old(self).constants,
            final(self).definitions == old(self).definitions,
    {
        let position = self.instructions.len();
        self.instructions.append(instruction);
        position
    }
}

/// Whether an operator's text is exactly `+`.
fn str_is_plus(s: &String) -> (r: bool)
    ensures
        r == (s@ == "+"@),
{
    *s == "+".to_owned()
}

/// Copy a byte buffer.
fn clone_bytes(v: &Vec<u8>) -> (r: Vec<u8>)
    ensures
        r@ == v@,
{
    let mut out: Vec<u8> = Vec::new();
    let n = v.len();
    let mut i: usize = 0;
    while i < n
        invariant
            n == v@.len(),
            i <= n,
            out@ == v@.take(i as int),
        decreases n - i,
    {
        out.push(v[i]);
        proof {
            assert(out@ =~= v@.take(i + 1));
        }
        i = i + 1;
    }
    proof {
        assert(v@.take(n as int) =~= v@);
    }
    out
}

} // verus!

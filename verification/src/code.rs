//! The bytecode instruction encoding: an opcode-definition table mapping each
//! opcode to its name and its fixed operand byte widths, and the encoder that
//! emits an opcode byte followed by each operand big-endian at its width.
use vstd::prelude::*;

verus! {

pub type Instructions = Vec<u8>;

pub type OpCode = u8;

/// Push the constant whose pool index follows as one 2-byte operand.
pub const OP_CONSTANT: OpCode = 0;

/// Pop two integers and push their sum; no operands.
pub const OP_ADD: OpCode = 1;

/// One opcode's shape: its name and the byte width of each operand.
#[derive(Debug)]
pub struct Definition {
    pub name: String,
    pub operand_widths: Vec<i32>,
}

/// The opcode table.
#[derive(Debug)]
pub struct Definitions {
    pub definitions: Vec<(OpCode, Definition)>,
}

/// The operand widths of an opcode: one 2-byte operand for `OP_CONSTANT`,
/// none for `OP_ADD` or for an unknown opcode.
pub open spec fn widths_of(opcode: OpCode) -> Seq<i32> {
    if opcode == OP_CONSTANT {
        seq![2i32]
    } else {
        Seq::empty()
    }
}

/// Whether an opcode has a definition in the table.
pub open spec fn opcode_known(opcode: OpCode) -> bool {
    opcode == OP_CONSTANT || opcode == OP_ADD
}

/// The two big-endian bytes of an operand taken at 16-bit width.
pub open spec fn be2_v(x: i64) -> Seq<u8> {
    let v = x as u16;
    seq![(v / 256) as u8, (v % 256) as u8]
}

/// The encoded bytes of the operands from index `i` on: each operand with a
/// declared width is encoded big-endian at that width, operands beyond the
/// declared widths contribute nothing.
pub open spec fn enc_operands_v(widths: Seq<i32>, operands: Seq<i64>, i: int) -> Seq<u8>
    decreases operands.len() - i,
{
    if i < 0 || i >= operands.len() {
        Seq::empty()
    } else {
        let here = if i < widths.len() && widths[i] == 2 {
            be2_v(operands[i])
        } else {
            Seq::<u8>::empty()
        };
        here + enc_operands_v(widths, operands, i + 1)
    }
}

/// The encoding of one instruction: the opcode byte, then its operands; an
/// unknown opcode encodes to nothing.
pub open spec fn make_v(opcode: OpCode, operands: Seq<i64>) -> Seq<u8> {
    if opcode_known(opcode) {
        seq![opcode] + enc_operands_v(widths_of(opcode), operands, 0)
    } else {
        Seq::empty()
    }
}

impl Definitions {
    /// The table holds exactly the two defined opcodes with their widths.
    pub open spec fn wf(&self) -> bool {
        &&& self.definitions@.len() == 2
    &&& self.definitions@[0].0 == OP_CONSTANT
    &&& self.definitions@[0].1.name@ == "OpConstant"@
    &&& self.definitions@[0].1.operand_widths@ == seq![2i32]
    &&& self.definitions@[1].0 == OP_ADD
    &&& self.definitions@[1].1.name@ == "OpAdd"@
    &&& self.definitions@[1].1.operand_widths@ == Seq::<i32>::empty()
    }

    pub fn new() -> (d: Self)
        ensures
            d.wf(),
    {
        let mut widths: Vec<i32> = Vec::new();
        widths.push(2);
        let constant_definition = Definition { name: "OpConstant".to_owned(), operand_widths: widths };
        let add_definition = Definition { name: "OpAdd".to_owned(), operand_widths: Vec::new() };
        let mut definitions: Vec<(OpCode, Definition)> = Vec::new();
        definitions.push((OP_CONSTANT, constant_definition));
        definitions.push((OP_ADD, add_definition));
        let d = Definitions { definitions };
        proof {
            assert(d.definitions@[0].1.operand_widths@ =~= seq![2i32]);
            assert(d.definitions@[1].1.operand_widths@ =~= Seq::<i32>::empty());
        }
        d
    }

    /// The definition of an opcode, if the table has one.
    pub fn lookup(&self, opcode: OpCode) -> (r: Option<&Definition>)
        requires
            self.wf(),
        ensures
            opcode_known(opcode) ==> (r matches Some(def) && def.operand_widths@ == widths_of(
                opcode,
            ) && def.name@ == (if opcode == OP_CONSTANT {
                "OpConstant"@
            } else {
                "OpAdd"@
            })),
            !opcode_known(opcode) ==> r is None,
    {
        if self.definitions[0].0 == opcode {
            Some(&self.definitions[0].1)
        } else if self.definitions[1].0 == opcode {
            Some(&self.definitions[1].1)
        } else {
            None
        }
    }

    /// Encode one instruction: the opcode byte followed by each operand
    /// big-endian at its declared width (an unknown opcode encodes to
    /// nothing, an operand beyond the declared widths to nothing).
    pub fn make(&self, opcode: OpCode, operands: Vec<i64>) -> (r: Instructions)
        requires
            self.wf(),
        ensures
            r@ == make_v(opcode, operands@),
    {
        let definition = self.lookup(opcode);
        let mut instructions: Vec<u8> = Vec::new();
        let def = match definition {
            Some(d) => d,
            None => {
                proof {
                    assert(instructions@ =~= make_v(opcode, operands@));
                }
                return instructions;
            },
        };
        instructions.push(opcode);
        let ghost widthsv = def.operand_widths@;
        let n = operands.len();
        let mut index: usize = 0;
        while index < n
            invariant
                n == operands@.len(),
                index <= n,
                widthsv == def.operand_widths@,
                widthsv == widths_of(opcode),
                opcode_known(opcode),
                make_v(opcode, operands@) == instructions@ + enc_operands_v(
                    widthsv,
                    operands@,
                    index as int,
                ),
            decreases n - index,
        {
            if index < def.operand_widths.len() {
                let width = def.operand_widths[index];
                if width == 2 {
                    let operand = #[verifier::truncate] (operands[index] as u16);
                    instructions.push((operand / 256) as u8);
                    instructions.push((operand % 256) as u8);
                }
            }
            proof {
                assert(make_v(opcode, operands@) =~= instructions@ + enc_operands_v(
                    widthsv,
                    operands@,
                    index + 1,
                ));
            }
            index = index + 1;
        }
        proof {
            assert(make_v(opcode, operands@) =~= instructions@);
        }
        instructions
    }
}

} // verus!

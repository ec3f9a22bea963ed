//! The instruction stream codec: decodes the byte payload of a `Code`
//! attribute into an ordered sequence of (offset, instruction) pairs, and
//! encodes such a sequence back into bytes. Each supported opcode has a
//! fixed total length of 1, 2 or 3 bytes.
//!
//! The 2-byte operand of a branch instruction is kept as the unsigned
//! 16-bit value read from the wire, and the display layer adds it to the
//! instruction's own offset without wrapping; no signed reinterpretation
//! of backward branches is applied anywhere in the codec.

use vstd::prelude::*;
use vstd::string::StringExecFns;

use crate::error::ClassFileError;
use crate::util::dec_chars;
use crate::wire::{se_u16, seq_assoc};

verus! {

pub const OPCODE_ACONST_NULL: u8 = 1;

pub const OPCODE_ICONST_0: u8 = 3;

pub const OPCODE_ICONST_1: u8 = 4;

pub const OPCODE_LDC: u8 = 18;

pub const OPCODE_ILOAD_1: u8 = 27;

pub const OPCODE_ALOAD_0: u8 = 42;

pub const OPCODE_ASTORE_1: u8 = 76;

pub const OPCODE_DUP: u8 = 89;

pub const OPCODE_IFEQ: u8 = 153;

pub const OPCODE_IFNE: u8 = 154;

pub const OPCODE_GOTO: u8 = 167;

pub const OPCODE_IRETURN: u8 = 172;

pub const OPCODE_RETURN: u8 = 177;

pub const OPCODE_GETSTATIC: u8 = 178;

pub const OPCODE_PUTSTATIC: u8 = 179;

pub const OPCODE_GETFIELD: u8 = 180;

pub const OPCODE_PUTFIELD: u8 = 181;

pub const OPCODE_INVOKEVIRTUAL: u8 = 182;

pub const OPCODE_INVOKESPECIAL: u8 = 183;

pub const OPCODE_NEW: u8 = 187;

pub const OPCODE_ATHROW: u8 = 191;

pub const OPCODE_CHECKCAST: u8 = 192;

/// A JVM bytecode instruction, one variant per supported opcode, carrying
/// its fixed-width operands.
#[allow(non_camel_case_types)]
#[derive(Debug, PartialEq, Eq, Clone)]
pub enum Bytecode {
    Aconst_null,
    Iconst_0,
    Iconst_1,
    Ldc(u8),
    Iload_1,
    Aload_0,
    Astore_1,
    Dup,
    Ifeq(u16),
    Ifne(u16),
    Goto(u16),
    Ireturn,
    Return,
    Getstatic(u16),
    Putstatic(u16),
    Getfield(u16),
    Putfield(u16),
    Invokevirtual(u16),
    Invokespecial(u16),
    New(u16),
    Athrow,
    Checkcast(u16),
}

/// Whether an opcode byte belongs to the supported instruction set.
pub open spec fn supported_opcode(op: u8) -> bool {
    ||| op == OPCODE_ACONST_NULL
    ||| op == OPCODE_ICONST_0
    ||| op == OPCODE_ICONST_1
    ||| op == OPCODE_LDC
    ||| op == OPCODE_ILOAD_1
    ||| op == OPCODE_ALOAD_0
    ||| op == OPCODE_ASTORE_1
    ||| op == OPCODE_DUP
    ||| op == OPCODE_IFEQ
    ||| op == OPCODE_IFNE
    ||| op == OPCODE_GOTO
    ||| op == OPCODE_IRETURN
    ||| op == OPCODE_RETURN
    ||| op == OPCODE_GETSTATIC
    ||| op == OPCODE_PUTSTATIC
    ||| op == OPCODE_GETFIELD
    ||| op == OPCODE_PUTFIELD
    ||| op == OPCODE_INVOKEVIRTUAL
    ||| op == OPCODE_INVOKESPECIAL
    ||| op == OPCODE_NEW
    ||| op == OPCODE_ATHROW
    ||| op == OPCODE_CHECKCAST
}

/// The total wire length of an instruction: opcode plus operands.
pub open spec fn instr_len(b: Bytecode) -> int {
    match b {
        Bytecode::Ldc(_) => 2,
        Bytecode::Ifeq(_) => 3,
        Bytecode::Ifne(_) => 3,
        Bytecode::Goto(_) => 3,
        Bytecode::Getstatic(_) => 3,
        Bytecode::Putstatic(_) => 3,
        Bytecode::Getfield(_) => 3,
        Bytecode::Putfield(_) => 3,
        Bytecode::Invokevirtual(_) => 3,
        Bytecode::Invokespecial(_) => 3,
        Bytecode::New(_) => 3,
        Bytecode::Checkcast(_) => 3,
        _ => 1,
    }
}

/// The bytes of one instruction: its opcode, then its operands.
pub open spec fn se_instr(b: Bytecode) -> Seq<u8> {
    match b {
        Bytecode::Aconst_null => seq![OPCODE_ACONST_NULL],
        Bytecode::Iconst_0 => seq![OPCODE_ICONST_0],
        Bytecode::Iconst_1 => seq![OPCODE_ICONST_1],
        Bytecode::Ldc(ci) => seq![OPCODE_LDC, ci],
        Bytecode::Iload_1 => seq![OPCODE_ILOAD_1],
        Bytecode::Aload_0 => seq![OPCODE_ALOAD_0],
        Bytecode::Astore_1 => seq![OPCODE_ASTORE_1],
        Bytecode::Dup => seq![OPCODE_DUP],
        Bytecode::Ifeq(x) => seq![OPCODE_IFEQ] + se_u16(x),
        Bytecode::Ifne(x) => seq![OPCODE_IFNE] + se_u16(x),
        Bytecode::Goto(x) => seq![OPCODE_GOTO] + se_u16(x),
        Bytecode::Ireturn => seq![OPCODE_IRETURN],
        Bytecode::Return => seq![OPCODE_RETURN],
        Bytecode::Getstatic(x) => seq![OPCODE_GETSTATIC] + se_u16(x),
        Bytecode::Putstatic(x) => seq![OPCODE_PUTSTATIC] + se_u16(x),
        Bytecode::Getfield(x) => seq![OPCODE_GETFIELD] + se_u16(x),
        Bytecode::Putfield(x) => seq![OPCODE_PUTFIELD] + se_u16(x),
        Bytecode::Invokevirtual(x) => seq![OPCODE_INVOKEVIRTUAL] + se_u16(x),
        Bytecode::Invokespecial(x) => seq![OPCODE_INVOKESPECIAL] + se_u16(x),
        Bytecode::New(x) => seq![OPCODE_NEW] + se_u16(x),
        Bytecode::Athrow => seq![OPCODE_ATHROW],
        Bytecode::Checkcast(x) => seq![OPCODE_CHECKCAST] + se_u16(x),
    }
}

/// The 16-bit big-endian value at position `p` of `b` (used for operands).
pub open spec fn be16_at(b: Seq<u8>, p: int) -> u16 {
    ((b[p] as int) * 0x100 + (b[p + 1] as int)) as u16
}

/// Parse the one instruction that starts at `pos`: `None` if the opcode is
/// unknown or its operands run past the end of the stream.
pub open spec fn sp_instr_at(b: Seq<u8>, pos: int) -> Option<Bytecode> {
    if !(0 <= pos < b.len()) {
        None
    } else {
        let op = b[pos];
        if op == OPCODE_ACONST_NULL {
            Some(Bytecode::Aconst_null)
        } else if op == OPCODE_ICONST_0 {
            Some(Bytecode::Iconst_0)
        } else if op == OPCODE_ICONST_1 {
            Some(Bytecode::Iconst_1)
        } else if op == OPCODE_LDC {
            if pos + 2 <= b.len() {
                Some(Bytecode::Ldc(b[pos + 1]))
            } else {
                None
            }
        } else if op == OPCODE_ILOAD_1 {
            Some(Bytecode::Iload_1)
        } else if op == OPCODE_ALOAD_0 {
            Some(Bytecode::Aload_0)
        } else if op == OPCODE_ASTORE_1 {
            Some(Bytecode::Astore_1)
        } else if op == OPCODE_DUP {
            Some(Bytecode::Dup)
        } else if op == OPCODE_IRETURN {
            Some(Bytecode::Ireturn)
        } else if op == OPCODE_RETURN {
            Some(Bytecode::Return)
        } else if op == OPCODE_ATHROW {
            Some(Bytecode::Athrow)
        } else if op == OPCODE_IFEQ {
            if pos + 3 <= b.len() {
                Some(Bytecode::Ifeq(be16_at(b, pos + 1)))
            } else {
                None
            }
        } else if op == OPCODE_IFNE {
            if pos + 3 <= b.len() {
                Some(Bytecode::Ifne(be16_at(b, pos + 1)))
            } else {
                None
            }
        } else if op == OPCODE_GOTO {
            if pos + 3 <= b.len() {
                Some(Bytecode::Goto(be16_at(b, pos + 1)))
            } else {
                None
            }
        } else if op == OPCODE_GETSTATIC {
            if pos + 3 <= b.len() {
                Some(Bytecode::Getstatic(be16_at(b, pos + 1)))
            } else {
                None
            }
        } else if op == OPCODE_PUTSTATIC {
            if pos + 3 <= b.len() {
                Some(Bytecode::Putstatic(be16_at(b, pos + 1)))
            } else {
                None
            }
        } else if op == OPCODE_GETFIELD {
            if pos + 3 <= b.len() {
                Some(Bytecode::Getfield(be16_at(b, pos + 1)))
            } else {
                None
            }
        } else if op == OPCODE_PUTFIELD {
            if pos + 3 <= b.len() {
                Some(Bytecode::Putfield(be16_at(b, pos + 1)))
            } else {
                None
            }
        } else if op == OPCODE_INVOKEVIRTUAL {
            if pos + 3 <= b.len() {
                Some(Bytecode::Invokevirtual(be16_at(b, pos + 1)))
            } else {
                None
            }
        } else if op == OPCODE_INVOKESPECIAL {
            if pos + 3 <= b.len() {
                Some(Bytecode::Invokespecial(be16_at(b, pos + 1)))
            } else {
                None
            }
        } else if op == OPCODE_NEW {
            if pos + 3 <= b.len() {
                Some(Bytecode::New(be16_at(b, pos + 1)))
            } else {
                None
            }
        } else if op == OPCODE_CHECKCAST {
            if pos + 3 <= b.len() {
                Some(Bytecode::Checkcast(be16_at(b, pos + 1)))
            } else {
                None
            }
        } else {
            None
        }
    }
}

/// Parse the instruction stream from `pos` to the end of the byte range,
/// recording each instruction's absolute start offset.
pub open spec fn sp_instrs(b: Seq<u8>, pos: int) -> Option<Seq<(usize, Bytecode)>>
    decreases b.len() - pos,
{
    if pos < 0 || pos >= b.len() {
        Some(seq![])
    } else {
        match sp_instr_at(b, pos) {
            None => None,
            Some(ins) => {
                let p2 = pos + instr_len(ins);
                if p2 > b.len() {
                    None
                } else {
                    match sp_instrs(b, p2) {
                        None => None,
                        Some(s) => Some(seq![(pos as usize, ins)] + s),
                    }
                }
            },
        }
    }
}

/// The bytes of an instruction sequence, in order; the recorded offsets
/// have no wire form of their own.
pub open spec fn se_instrs(s: Seq<(usize, Bytecode)>) -> Seq<u8>
    decreases s.len(),
{
    if s.len() == 0 {
        seq![]
    } else {
        se_instr(s[0].1) + se_instrs(s.skip(1))
    }
}

/// The offsets of an instruction sequence are contiguous from `pos`: each
/// instruction starts where the previous one ended.
pub open spec fn code_wf_at(s: Seq<(usize, Bytecode)>, pos: int) -> bool
    decreases s.len(),
{
    s.len() == 0 || {
        &&& s[0].0 == pos
        &&& pos + instr_len(s[0].1) <= usize::MAX
        &&& code_wf_at(s.skip(1), pos + instr_len(s[0].1))
    }
}

/// The offsets cover the whole byte range contiguously from 0; this is the
/// shape the decoder produces.
pub open spec fn code_wf(s: Seq<(usize, Bytecode)>) -> bool {
    code_wf_at(s, 0)
}

/// Read the one instruction that starts at `pos`.
fn read_instruction(bytes: &Vec<u8>, pos: usize) -> (r: Result<(Bytecode, usize), ClassFileError>)
    requires
        pos < bytes@.len(),
    ensures
        r is Ok <==> sp_instr_at(bytes@, pos as int) is Some,
        r matches Ok((ins, p2)) ==> sp_instr_at(bytes@, pos as int) == Some(ins) && p2 == pos
            + instr_len(ins) && p2 <= bytes@.len(),
        r matches Err(e) ==> e is StructuralError || e is UnknownTag,
        r matches Err(e) ==> (e matches ClassFileError::UnknownTag { offset, tag } ==> offset == pos
            && tag == bytes@[pos as int] && !supported_opcode(tag)),
{
    let end = bytes.len();
    let op = bytes[pos];
    if op == OPCODE_ACONST_NULL {
        Ok((Bytecode::Aconst_null, pos + 1))
    } else if op == OPCODE_ICONST_0 {
        Ok((Bytecode::Iconst_0, pos + 1))
    } else if op == OPCODE_ICONST_1 {
        Ok((Bytecode::Iconst_1, pos + 1))
    } else if op == OPCODE_ILOAD_1 {
        Ok((Bytecode::Iload_1, pos + 1))
    } else if op == OPCODE_ALOAD_0 {
        Ok((Bytecode::Aload_0, pos + 1))
    } else if op == OPCODE_ASTORE_1 {
        Ok((Bytecode::Astore_1, pos + 1))
    } else if op == OPCODE_DUP {
        Ok((Bytecode::Dup, pos + 1))
    } else if op == OPCODE_IRETURN {
        Ok((Bytecode::Ireturn, pos + 1))
    } else if op == OPCODE_RETURN {
        Ok((Bytecode::Return, pos + 1))
    } else if op == OPCODE_ATHROW {
        Ok((Bytecode::Athrow, pos + 1))
    } else if op == OPCODE_LDC {
        if bytes.len() - pos < 2 {
            return Err(ClassFileError::StructuralError {
                offset: pos,
                expected: 2,
                actual: (bytes.len() - pos) as u64,
            });
        }
        Ok((Bytecode::Ldc(bytes[pos + 1]), pos + 2))
    } else if op == OPCODE_IFEQ || op == OPCODE_IFNE || op == OPCODE_GOTO || op
        == OPCODE_GETSTATIC || op == OPCODE_PUTSTATIC || op == OPCODE_GETFIELD || op
        == OPCODE_PUTFIELD || op == OPCODE_INVOKEVIRTUAL || op == OPCODE_INVOKESPECIAL || op
        == OPCODE_NEW || op == OPCODE_CHECKCAST {
        if bytes.len() - pos < 3 {
            return Err(ClassFileError::StructuralError {
                offset: pos,
                expected: 3,
                actual: (bytes.len() - pos) as u64,
            });
        }
        let x = (bytes[pos + 1] as u16) * 0x100 + (bytes[pos + 2] as u16);
        proof {
            assert(x == be16_at(bytes@, pos as int + 1));
        }
        let ins = if op == OPCODE_IFEQ {
            Bytecode::Ifeq(x)
        } else if op == OPCODE_IFNE {
            Bytecode::Ifne(x)
        } else if op == OPCODE_GOTO {
            Bytecode::Goto(x)
        } else if op == OPCODE_GETSTATIC {
            Bytecode::Getstatic(x)
        } else if op == OPCODE_PUTSTATIC {
            Bytecode::Putstatic(x)
        } else if op == OPCODE_GETFIELD {
            Bytecode::Getfield(x)
        } else if op == OPCODE_PUTFIELD {
            Bytecode::Putfield(x)
        } else if op == OPCODE_INVOKEVIRTUAL {
            Bytecode::Invokevirtual(x)
        } else if op == OPCODE_INVOKESPECIAL {
            Bytecode::Invokespecial(x)
        } else if op == OPCODE_NEW {
            Bytecode::New(x)
        } else {
            Bytecode::Checkcast(x)
        };
        Ok((ins, pos + 3))
    } else {
        Err(ClassFileError::UnknownTag { offset: pos, tag: op })
    }
}

impl Bytecode {
    /// Decode the given byte range into the instructions it represents,
    /// each paired with its absolute start offset. A byte that is not a
    /// supported opcode fails the decode at exactly that offset, and no
    /// partial instruction list is returned; an operand running past the
    /// end of the range is a structural error.
    pub fn from_bytes(bytes: &Vec<u8>) -> (r: Result<Vec<(usize, Bytecode)>, ClassFileError>)
        ensures
            r is Ok <==> sp_instrs(bytes@, 0) is Some,
            r matches Ok(v) ==> sp_instrs(bytes@, 0) == Some(v@) && code_wf(v@),
            r matches Err(e) ==> e is StructuralError || e is UnknownTag,
            r matches Err(e) ==> (e matches ClassFileError::UnknownTag { offset, tag } ==> offset
                < bytes@.len() && tag == bytes@[offset as int] && !supported_opcode(tag)),
    {
        let mut out: Vec<(usize, Bytecode)> = Vec::new();
        let mut i: usize = 0;
        let n = bytes.len();
        while i < bytes.len()
            invariant
                i <= bytes@.len(),
                bytes@.len() <= usize::MAX,
                sp_instrs(bytes@, 0) == (match sp_instrs(bytes@, i as int) {
                    None => None::<Seq<(usize, Bytecode)>>,
                    Some(s) => Some(out@ + s),
                }),
            decreases bytes@.len() - i,
        {
            let step = match read_instruction(bytes, i) {
                Ok(x) => x,
                Err(e) => {
                    proof {
                        assert(sp_instrs(bytes@, i as int) is None);
                    }
                    return Err(e);
                },
            };
            let (ins, p2) = step;
            let ghost pv = out@;
            let ghost iv = ins;
            out.push((i, ins));
            proof {
                assert(out@ =~= pv + seq![(i, iv)]);
                assert(sp_instrs(bytes@, i as int) == (
                match sp_instrs(bytes@, p2 as int) {
                    None => None::<Seq<(usize, Bytecode)>>,
                    Some(s) => Some(seq![(i, iv)] + s),
                }));
                match sp_instrs(bytes@, p2 as int) {
                    None => {},
                    Some(s2) => {
                        assert(pv + (seq![(i, iv)] + s2) =~= out@ + s2);
                    },
                }
            }
            i = p2;
        }
        proof {
            assert(sp_instrs(bytes@, i as int) == Some(Seq::<(usize, Bytecode)>::empty()));
            assert(out@ + Seq::<(usize, Bytecode)>::empty() =~= out@);
            lemma_sp_instrs_wf(bytes@, 0);
        }
        Ok(out)
    }

    /// Encode the instruction sequence: each instruction's opcode byte,
    /// then its fixed-width operands, in order. The resulting length is
    /// the sum of the per-instruction widths and becomes the declared
    /// code length of the enclosing Code attribute.
    pub fn to_bytes(code: &Vec<(usize, Bytecode)>) -> (r: Vec<u8>)
        ensures
            r@ == se_instrs(code@),
    {
        let mut out: Vec<u8> = Vec::new();
        let mut i: usize = 0;
        let ghost view = code@;
        proof {
            assert(view.skip(0) =~= view);
            assert(Seq::<u8>::empty() + se_instrs(view) =~= se_instrs(view));
        }
        while i < code.len()
            invariant
                i <= view.len(),
                view == code@,
                out@ + se_instrs(view.skip(i as int)) == se_instrs(view),
            decreases view.len() - i,
        {
            let ghost mid = out@;
            let ins = &code[i].1;
            match ins {
                Bytecode::Aconst_null => out.push(OPCODE_ACONST_NULL),
                Bytecode::Iconst_0 => out.push(OPCODE_ICONST_0),
                Bytecode::Iconst_1 => out.push(OPCODE_ICONST_1),
                Bytecode::Iload_1 => out.push(OPCODE_ILOAD_1),
                Bytecode::Aload_0 => out.push(OPCODE_ALOAD_0),
                Bytecode::Astore_1 => out.push(OPCODE_ASTORE_1),
                Bytecode::Dup => out.push(OPCODE_DUP),
                Bytecode::Ireturn => out.push(OPCODE_IRETURN),
                Bytecode::Return => out.push(OPCODE_RETURN),
                Bytecode::Athrow => out.push(OPCODE_ATHROW),
                Bytecode::Ldc(ci) => {
                    out.push(OPCODE_LDC);
                    out.push(*ci);
                },
                Bytecode::Ifeq(x) => {
                    out.push(OPCODE_IFEQ);
                    out.push((*x / 0x100) as u8);
                    out.push((*x % 0x100) as u8);
                },
                Bytecode::Ifne(x) => {
                    out.push(OPCODE_IFNE);
                    out.push((*x / 0x100) as u8);
                    out.push((*x % 0x100) as u8);
                },
                Bytecode::Goto(x) => {
                    out.push(OPCODE_GOTO);
                    out.push((*x / 0x100) as u8);
                    out.push((*x % 0x100) as u8);
                },
                Bytecode::Getstatic(x) => {
                    out.push(OPCODE_GETSTATIC);
                    out.push((*x / 0x100) as u8);
                    out.push((*x % 0x100) as u8);
                },
                Bytecode::Putstatic(x) => {
                    out.push(OPCODE_PUTSTATIC);
                    out.push((*x / 0x100) as u8);
                    out.push((*x % 0x100) as u8);
                },
                Bytecode::Getfield(x) => {
                    out.push(OPCODE_GETFIELD);
                    out.push((*x / 0x100) as u8);
                    out.push((*x % 0x100) as u8);
                },
                Bytecode::Putfield(x) => {
                    out.push(OPCODE_PUTFIELD);
                    out.push((*x / 0x100) as u8);
                    out.push((*x % 0x100) as u8);
                },
                Bytecode::Invokevirtual(x) => {
                    out.push(OPCODE_INVOKEVIRTUAL);
                    out.push((*x / 0x100) as u8);
                    out.push((*x % 0x100) as u8);
                },
                Bytecode::Invokespecial(x) => {
                    out.push(OPCODE_INVOKESPECIAL);
                    out.push((*x / 0x100) as u8);
                    out.push((*x % 0x100) as u8);
                },
                Bytecode::New(x) => {
                    out.push(OPCODE_NEW);
                    out.push((*x / 0x100) as u8);
                    out.push((*x % 0x100) as u8);
                },
                Bytecode::Checkcast(x) => {
                    out.push(OPCODE_CHECKCAST);
                    out.push((*x / 0x100) as u8);
                    out.push((*x % 0x100) as u8);
                },
            }
            proof {
                assert(out@ =~= mid + se_instr(view[i as int].1));
                assert(view.skip(i as int)[0] == view[i as int]);
                assert(view.skip(i as int).skip(1) =~= view.skip(i as int + 1));
                assert(se_instrs(view.skip(i as int)) == se_instr(view[i as int].1) + se_instrs(
                    view.skip(i as int + 1),
                ));
                seq_assoc(mid, se_instr(view[i as int].1), se_instrs(view.skip(i as int + 1)));
            }
            i += 1;
        }
        proof {
            assert(view.skip(view.len() as int) =~= Seq::<(usize, Bytecode)>::empty());
            assert(out@ + se_instrs(Seq::<(usize, Bytecode)>::empty()) =~= out@);
        }
        out
    }
}

/// Every instruction list the parser yields has contiguous offsets from
/// its start position.
pub proof fn lemma_sp_instrs_wf(b: Seq<u8>, pos: int)
    requires
        b.len() <= usize::MAX,
    ensures
        sp_instrs(b, pos) matches Some(s) ==> code_wf_at(s, pos),
    decreases b.len() - pos,
{
    if pos < 0 || pos >= b.len() {
    } else {
        match sp_instr_at(b, pos) {
            None => {},
            Some(ins) => {
                let p2 = pos + instr_len(ins);
                if p2 <= b.len() {
                    lemma_sp_instrs_wf(b, p2);
                    match sp_instrs(b, p2) {
                        None => {},
                        Some(s2) => {
                            let t = seq![(pos as usize, ins)] + s2;
                            assert(t.skip(1) =~= s2);
                        },
                    }
                }
            },
        }
    }
}

/// Parsing the encoding of an instruction sequence with contiguous offsets
/// yields the sequence back: the joint round trip of the instruction
/// stream codec.
#[verifier::rlimit(80)]
pub proof fn lemma_rt_instrs(b: Seq<u8>, s: Seq<(usize, Bytecode)>, pos: int)
    requires
        0 <= pos <= b.len(),
        b.len() <= usize::MAX,
        b.skip(pos) == se_instrs(s),
        code_wf_at(s, pos),
    ensures
        sp_instrs(b, pos) == Some(s),
    decreases s.len(),
{
    if s.len() == 0 {
        assert(b.skip(pos).len() == 0);
        assert(s =~= Seq::<(usize, Bytecode)>::empty());
    } else {
        let ins = s[0].1;
        let w = instr_len(ins);
        let enc = se_instr(ins);
        assert(se_instrs(s) == enc + se_instrs(s.skip(1)));
        assert(enc.len() == w);
        assert forall|k: int| 0 <= k < w implies b[pos + k] == enc[k] by {
            assert(b.skip(pos)[k] == b[pos + k]);
        }
        assert(sp_instr_at(b, pos) == Some(ins)) by {
            assert(b[pos] == enc[0]);
            match ins {
                Bytecode::Ldc(ci) => {
                    assert(enc[1] == ci);
                    assert(b[pos + 1] == enc[1]);
                },
                Bytecode::Ifeq(x) => {
                    assert(enc[1] == (x / 0x100) as u8);
                    assert(enc[2] == (x % 0x100) as u8);
                    assert(b[pos + 1] == enc[1]);
                    assert(b[pos + 2] == enc[2]);
                    lemma_operand_at(b, pos, x);
                },
                Bytecode::Ifne(x) => {
                    assert(enc[1] == (x / 0x100) as u8);
                    assert(enc[2] == (x % 0x100) as u8);
                    assert(b[pos + 1] == enc[1]);
                    assert(b[pos + 2] == enc[2]);
                    lemma_operand_at(b, pos, x);
                },
                Bytecode::Goto(x) => {
                    assert(enc[1] == (x / 0x100) as u8);
                    assert(enc[2] == (x % 0x100) as u8);
                    assert(b[pos + 1] == enc[1]);
                    assert(b[pos + 2] == enc[2]);
                    lemma_operand_at(b, pos, x);
                },
                Bytecode::Getstatic(x) => {
                    assert(enc[1] == (x / 0x100) as u8);
                    assert(enc[2] == (x % 0x100) as u8);
                    assert(b[pos + 1] == enc[1]);
                    assert(b[pos + 2] == enc[2]);
                    lemma_operand_at(b, pos, x);
                },
                Bytecode::Putstatic(x) => {
                    assert(enc[1] == (x / 0x100) as u8);
                    assert(enc[2] == (x % 0x100) as u8);
                    assert(b[pos + 1] == enc[1]);
                    assert(b[pos + 2] == enc[2]);
                    lemma_operand_at(b, pos, x);
                },
                Bytecode::Getfield(x) => {
                    assert(enc[1] == (x / 0x100) as u8);
                    assert(enc[2] == (x % 0x100) as u8);
                    assert(b[pos + 1] == enc[1]);
                    assert(b[pos + 2] == enc[2]);
                    lemma_operand_at(b, pos, x);
                },
                Bytecode::Putfield(x) => {
                    assert(enc[1] == (x / 0x100) as u8);
                    assert(enc[2] == (x % 0x100) as u8);
                    assert(b[pos + 1] == enc[1]);
                    assert(b[pos + 2] == enc[2]);
                    lemma_operand_at(b, pos, x);
                },
                Bytecode::Invokevirtual(x) => {
                    assert(enc[1] == (x / 0x100) as u8);
                    assert(enc[2] == (x % 0x100) as u8);
                    assert(b[pos + 1] == enc[1]);
                    assert(b[pos + 2] == enc[2]);
                    lemma_operand_at(b, pos, x);
                },
                Bytecode::Invokespecial(x) => {
                    assert(enc[1] == (x / 0x100) as u8);
                    assert(enc[2] == (x % 0x100) as u8);
                    assert(b[pos + 1] == enc[1]);
                    assert(b[pos + 2] == enc[2]);
                    lemma_operand_at(b, pos, x);
                },
                Bytecode::New(x) => {
                    assert(enc[1] == (x / 0x100) as u8);
                    assert(enc[2] == (x % 0x100) as u8);
                    assert(b[pos + 1] == enc[1]);
                    assert(b[pos + 2] == enc[2]);
                    lemma_operand_at(b, pos, x);
                },
                Bytecode::Checkcast(x) => {
                    assert(enc[1] == (x / 0x100) as u8);
                    assert(enc[2] == (x % 0x100) as u8);
                    assert(b[pos + 1] == enc[1]);
                    assert(b[pos + 2] == enc[2]);
                    lemma_operand_at(b, pos, x);
                },
                _ => {},
            }
        }
        assert(b.skip(pos + w) =~= se_instrs(s.skip(1))) by {
            assert forall|k: int| 0 <= k < b.len() - pos - w implies b.skip(pos + w)[k]
                == se_instrs(s.skip(1))[k] by {
                assert(b.skip(pos)[w + k] == b[pos + w + k]);
                assert((enc + se_instrs(s.skip(1)))[w + k] == se_instrs(s.skip(1))[k]);
            }
            assert(b.skip(pos + w).len() == se_instrs(s.skip(1)).len());
        }
        lemma_rt_instrs(b, s.skip(1), pos + w);
        assert(seq![(pos as usize, ins)] + s.skip(1) =~= s);
    }
}

/// Helper for `lemma_rt_instrs`: a 3-byte instruction's operand is read
/// back from its two big-endian bytes.
proof fn lemma_operand_at(b: Seq<u8>, pos: int, x: u16)
    requires
        0 <= pos,
        pos + 3 <= b.len(),
        b[pos + 1] == (x / 0x100) as u8,
        b[pos + 2] == (x % 0x100) as u8,
    ensures
        be16_at(b, pos + 1) == x,
{
    assert((x / 0x100) as int * 0x100 + (x % 0x100) as int == x as int);
}

/// Law of the instruction-stream round trip: for any instruction sequence
/// whose offsets are contiguous from 0, decoding its encoding yields the
/// sequence back.
pub proof fn lemma_rt_code(s: Seq<(usize, Bytecode)>)
    requires
        code_wf(s),
    ensures
        sp_instrs(se_instrs(s), 0) == Some(s),
{
    lemma_se_instrs_len(s, 0);
    assert(se_instrs(s).skip(0) =~= se_instrs(s));
    lemma_rt_instrs(se_instrs(s), s, 0);
}

/// The length of an encoded instruction sequence with contiguous offsets
/// from `pos` stays within the address range.
proof fn lemma_se_instrs_len(s: Seq<(usize, Bytecode)>, pos: int)
    requires
        0 <= pos <= usize::MAX,
        code_wf_at(s, pos),
    ensures
        pos + se_instrs(s).len() <= usize::MAX,
    decreases s.len(),
{
    if s.len() == 0 {
    } else {
        lemma_se_instrs_len(s.skip(1), pos + instr_len(s[0].1));
        assert(se_instrs(s) == se_instr(s[0].1) + se_instrs(s.skip(1)));
        assert(se_instr(s[0].1).len() == instr_len(s[0].1));
    }
}

/// The canonical mnemonic text of an instruction at absolute offset
/// `index`: the mnemonic padded to 13 characters, then for instructions
/// with a constant-pool operand a `#` and the operand, and for branch
/// instructions the absolute target, the unsigned operand added to the
/// instruction's own offset.
pub open spec fn instr_text(b: Bytecode, index: u16) -> Seq<char> {
    match b {
        Bytecode::Aconst_null => "aconst_null"@,
        Bytecode::Iconst_0 => "iconst_0"@,
        Bytecode::Iconst_1 => "iconst_1"@,
        Bytecode::Ldc(ci) => "ldc           #"@ + dec_chars(ci as int),
        Bytecode::Iload_1 => "iload_1"@,
        Bytecode::Aload_0 => "aload_0"@,
        Bytecode::Astore_1 => "astore_1"@,
        Bytecode::Dup => "dup"@,
        Bytecode::Ifeq(x) => "ifeq          "@ + dec_chars(x as int + index as int),
        Bytecode::Ifne(x) => "ifne          "@ + dec_chars(x as int + index as int),
        Bytecode::Goto(x) => "goto          "@ + dec_chars(x as int + index as int),
        Bytecode::Ireturn => "ireturn"@,
        Bytecode::Return => "return"@,
        Bytecode::Getstatic(x) => "getstatic     #"@ + dec_chars(x as int),
        Bytecode::Putstatic(x) => "putstatic     #"@ + dec_chars(x as int),
        Bytecode::Getfield(x) => "getfield      #"@ + dec_chars(x as int),
        Bytecode::Putfield(x) => "putfield      #"@ + dec_chars(x as int),
        Bytecode::Invokevirtual(x) => "invokevirtual #"@ + dec_chars(x as int),
        Bytecode::Invokespecial(x) => "invokespecial #"@ + dec_chars(x as int),
        Bytecode::New(x) => "new           #"@ + dec_chars(x as int),
        Bytecode::Athrow => "athrow"@,
        Bytecode::Checkcast(x) => "checkcast     #"@ + dec_chars(x as int),
    }
}

impl Bytecode {
    /// The canonical mnemonic text form of this instruction. `index` is
    /// the absolute offset at which the instruction occurs, used to show
    /// the absolute target of a branch.
    pub fn to_string(&self, index: u16) -> (r: String)
        ensures
            r@ == instr_text(*self, index),
    {
        match self {
            Bytecode::Aconst_null => String::from_str("aconst_null"),
            Bytecode::Iconst_0 => String::from_str("iconst_0"),
            Bytecode::Iconst_1 => String::from_str("iconst_1"),
            Bytecode::Ldc(ci) => {
                let mut out = String::from_str("ldc           #");
                crate::util::push_dec(&mut out, *ci as u32);
                out
            },
            Bytecode::Iload_1 => String::from_str("iload_1"),
            Bytecode::Aload_0 => String::from_str("aload_0"),
            Bytecode::Astore_1 => String::from_str("astore_1"),
            Bytecode::Dup => String::from_str("dup"),
            Bytecode::Ifeq(x) => {
                let mut out = String::from_str("ifeq          ");
                crate::util::push_dec(&mut out, *x as u32 + index as u32);
                out
            },
            Bytecode::Ifne(x) => {
                let mut out = String::from_str("ifne          ");
                crate::util::push_dec(&mut out, *x as u32 + index as u32);
                out
            },
            Bytecode::Goto(x) => {
                let mut out = String::from_str("goto          ");
                crate::util::push_dec(&mut out, *x as u32 + index as u32);
                out
            },
            Bytecode::Ireturn => String::from_str("ireturn"),
            Bytecode::Return => String::from_str("return"),
            Bytecode::Getstatic(x) => {
                let mut out = String::from_str("getstatic     #");
                crate::util::push_dec(&mut out, *x as u32);
                out
            },
            Bytecode::Putstatic(x) => {
                let mut out = String::from_str("putstatic     #");
                crate::util::push_dec(&mut out, *x as u32);
                out
            },
            Bytecode::Getfield(x) => {
                let mut out = String::from_str("getfield      #");
                crate::util::push_dec(&mut out, *x as u32);
                out
            },
            Bytecode::Putfield(x) => {
                let mut out = String::from_str("putfield      #");
                crate::util::push_dec(&mut out, *x as u32);
                out
            },
            Bytecode::Invokevirtual(x) => {
                let mut out = String::from_str("invokevirtual #");
                crate::util::push_dec(&mut out, *x as u32);
                out
            },
            Bytecode::Invokespecial(x) => {
                let mut out = String::from_str("invokespecial #");
                crate::util::push_dec(&mut out, *x as u32);
                out
            },
            Bytecode::New(x) => {
                let mut out = String::from_str("new           #");
                crate::util::push_dec(&mut out, *x as u32);
                out
            },
            Bytecode::Athrow => String::from_str("athrow"),
            Bytecode::Checkcast(x) => {
                let mut out = String::from_str("checkcast     #");
                crate::util::push_dec(&mut out, *x as u32);
                out
            },
        }
    }
}

} // verus!

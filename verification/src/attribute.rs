//! The generic attribute mechanism: a record of a name (a constant-pool
//! index of a Utf8 entry) and an opaque byte payload. The outer codec never
//! interprets the payload; typed views (Code, Signature, SourceFile) re-parse
//! the opaque bytes on demand.

use vstd::prelude::*;
use vstd::string::StringExecFns;

use crate::wire::{lemma_rt_bytes, lemma_rt_u16, lemma_rt_u32, se_u16, se_u32, sp_bytes, sp_u16, sp_u32};

verus! {

/// A generic attribute: a name index into the constant pool and an opaque
/// payload, preserved verbatim across a round trip.
#[derive(Debug, PartialEq, Eq, Clone)]
pub struct Attribute {
    pub attribute_name_index: crate::constant_pool::ConstantPoolIndex,
    pub info: Vec<u8>,
}

/// The mathematical model of an attribute.
pub struct AttributeV {
    pub name_index: usize,
    pub info: Seq<u8>,
}

impl View for Attribute {
    type V = AttributeV;

    open spec fn view(&self) -> AttributeV {
        AttributeV { name_index: self.attribute_name_index, info: self.info@ }
    }
}

/// An ordered collection of attributes; duplicates are permitted and order
/// is preserved across a round trip.
#[derive(Debug, PartialEq, Eq, Clone)]
pub struct AttributeSet {
    pub attributes: Vec<Attribute>,
}

impl View for AttributeSet {
    type V = Seq<AttributeV>;

    open spec fn view(&self) -> Seq<AttributeV> {
        self.attributes@.map_values(|a: Attribute| a@)
    }
}

/// Parse one attribute: a 2-byte name index, a 4-byte payload length, and
/// exactly that many opaque payload bytes.
pub open spec fn sp_attr(b: Seq<u8>) -> Option<(AttributeV, Seq<u8>)> {
    match sp_u16(b) {
        None => None,
        Some((ni, r)) => match sp_u32(r) {
            None => None,
            Some((len, r2)) => match sp_bytes(r2, len as int) {
                None => None,
                Some((info, r3)) => Some((AttributeV { name_index: ni as usize, info }, r3)),
            },
        },
    }
}

/// The bytes of one attribute: name index, payload length, payload verbatim.
pub open spec fn se_attr(a: AttributeV) -> Seq<u8> {
    se_u16(a.name_index as u16) + se_u32(a.info.len() as u32) + a.info
}

/// An attribute the writer can emit: its name index lies in `[1, 65535]`
/// and its payload length fits the 4-byte length field.
pub open spec fn encodable_attr(a: AttributeV) -> bool {
    &&& 1 <= a.name_index <= 0xffff
    &&& a.info.len() <= 0xffff_ffff
}

/// Parse exactly `n` attributes in order.
pub open spec fn sp_attrs(b: Seq<u8>, n: int) -> Option<(Seq<AttributeV>, Seq<u8>)>
    decreases n,
{
    if n <= 0 {
        Some((seq![], b))
    } else {
        match sp_attr(b) {
            None => None,
            Some((a, r)) => match sp_attrs(r, n - 1) {
                None => None,
                Some((s, r2)) => Some((seq![a] + s, r2)),
            },
        }
    }
}

/// The bytes of a sequence of attributes, in order.
pub open spec fn se_attrs(s: Seq<AttributeV>) -> Seq<u8>
    decreases s.len(),
{
    if s.len() == 0 {
        seq![]
    } else {
        se_attr(s[0]) + se_attrs(s.skip(1))
    }
}

/// Parse an attribute set: a 2-byte count, then that many attributes.
pub open spec fn sp_attr_set(b: Seq<u8>) -> Option<(Seq<AttributeV>, Seq<u8>)> {
    match sp_u16(b) {
        None => None,
        Some((count, r)) => sp_attrs(r, count as int),
    }
}

pub open spec fn se_attr_set(s: Seq<AttributeV>) -> Seq<u8> {
    se_u16(s.len() as u16) + se_attrs(s)
}

/// An attribute set the writer can emit.
pub open spec fn encodable_attr_set(s: Seq<AttributeV>) -> bool {
    &&& s.len() <= 0xffff
    &&& forall|i: int| 0 <= i < s.len() ==> encodable_attr(#[trigger] s[i])
}

/// Whether the attribute's name index resolves to the given Utf8 string
/// in the given pool.
pub open spec fn attr_is_named(
    pool: Seq<crate::constant_pool::CpEntryV>,
    a: AttributeV,
    name: Seq<char>,
) -> bool {
    crate::class_file::utf8_at(pool, a.name_index as int) == Some(name)
}

/// The position of the first attribute whose name resolves to `name`.
pub open spec fn find_first(
    pool: Seq<crate::constant_pool::CpEntryV>,
    attrs: Seq<AttributeV>,
    name: Seq<char>,
) -> Option<int>
    decreases attrs.len(),
{
    if attrs.len() == 0 {
        None
    } else if attr_is_named(pool, attrs[0], name) {
        Some(0)
    } else {
        match find_first(pool, attrs.skip(1), name) {
            None => None,
            Some(j) => Some(j + 1),
        }
    }
}

/// The constant-pool index held in a 2-byte attribute payload, if the
/// payload has exactly that length (the form of the Signature and
/// SourceFile attributes).
pub open spec fn attr_two_byte_index(a: AttributeV) -> Option<int> {
    if a.info.len() == 2 {
        Some((a.info[0] as int) * 0x100 + (a.info[1] as int))
    } else {
        None
    }
}

impl AttributeSet {
    /// Find the first attribute whose name resolves to the given string.
    /// An attribute whose name index does not resolve to a Utf8 entry of
    /// the pool never matches.
    pub fn find_attribute(&self, class_file: &crate::class_file::ClassFile, attribute_name: &str) -> (r:
        Option<&Attribute>)
        ensures
            r is Some <==> find_first(class_file@.pool, self@, attribute_name@) is Some,
            r matches Some(a) ==> (match find_first(class_file@.pool, self@, attribute_name@) {
                Some(j) => 0 <= j < self@.len() && a@ == self@[j],
                None => false,
            }),
    {
        let ghost pool = class_file@.pool;
        let ghost name = attribute_name@;
        let needle = String::from_str(attribute_name);
        let mut i: usize = 0;
        proof {
            assert(self@.skip(0) =~= self@);
        }
        while i < self.attributes.len()
            invariant
                i <= self.attributes@.len(),
                self@.len() == self.attributes@.len(),
                pool == class_file@.pool,
                name == attribute_name@,
                needle@ == name,
                find_first(pool, self@, name) == (match find_first(pool, self@.skip(i as int), name) {
                    None => None::<int>,
                    Some(j) => Some(i + j),
                }),
            decreases self.attributes@.len() - i,
        {
            let ghost av = self.attributes@[i as int]@;
            proof {
                assert(self@[i as int] == av);
                assert(self@.skip(i as int)[0] == self@[i as int]);
                assert(self@.skip(i as int).skip(1) =~= self@.skip(i as int + 1));
            }
            let matched = match class_file.get_constant_utf8(self.attributes[i].attribute_name_index) {
                Ok(s) => s == needle,
                Err(_) => false,
            };
            if matched {
                proof {
                    assert(attr_is_named(pool, av, name));
                    assert(find_first(pool, self@.skip(i as int), name) == Some(0int));
                }
                return Some(&self.attributes[i]);
            }
            proof {
                assert(!attr_is_named(pool, av, name));
            }
            i += 1;
        }
        proof {
            assert(self@.skip(self@.len() as int) =~= Seq::<AttributeV>::empty());
        }
        None
    }

    /// The string named by the Signature attribute, if one is present: its
    /// 2-byte payload is a constant-pool index of a Utf8 entry. A payload
    /// of the wrong length, or one whose index does not resolve to a Utf8
    /// entry, is an error local to this lookup.
    pub fn get_signature(&self, class_file: &crate::class_file::ClassFile) -> (r: Result<
        Option<String>,
        crate::error::ClassFileError,
    >)
        ensures
            find_first(class_file@.pool, self@, "Signature"@) is None ==> r == Ok::<
                Option<String>,
                crate::error::ClassFileError,
            >(None),
            (match find_first(class_file@.pool, self@, "Signature"@) {
                Some(j) => match attr_two_byte_index(self@[j]) {
                    Some(idx) => match crate::class_file::utf8_at(class_file@.pool, idx) {
                        Some(s2) => r matches Ok(Some(out)) && out@ == s2,
                        None => r is Err,
                    },
                    None => r is Err,
                },
                None => true,
            }),
            r matches Err(e) ==> e is Resolution,
    {
        match self.find_attribute(class_file, "Signature") {
            None => Ok(None),
            Some(attr) => {
                if attr.info.len() != 2 {
                    return Err(crate::error::ClassFileError::Resolution {
                        index: attr.attribute_name_index,
                    });
                }
                let idx = be16(&attr.info, 0);
                match class_file.get_constant_utf8(idx as usize) {
                    Ok(s) => Ok(Some(s)),
                    Err(e) => Err(e),
                }
            },
        }
    }
}

/// Law of attribute opacity: parsing the encoding of one attribute yields
/// the attribute back, its payload bytes verbatim, whatever its name.
pub proof fn lemma_rt_attr(a: AttributeV, rest: Seq<u8>)
    requires
        encodable_attr(a),
    ensures
        sp_attr(se_attr(a) + rest) == Some((a, rest)),
{
    let len = a.info.len() as u32;
    let a1 = se_u16(a.name_index as u16);
    let a2 = se_u32(len);
    assert(se_attr(a) == (a1 + a2) + a.info);
    crate::wire::seq_assoc(a1 + a2, a.info, rest);
    crate::wire::seq_assoc(a1, a2, a.info + rest);
    lemma_rt_u16(a.name_index as u16, se_u32(len) + (a.info + rest));
    lemma_rt_u32(len, a.info + rest);
    lemma_rt_bytes(a.info, rest);
}

#[verifier::rlimit(80)]
pub proof fn lemma_rt_attrs(s: Seq<AttributeV>, rest: Seq<u8>)
    requires
        forall|i: int| 0 <= i < s.len() ==> encodable_attr(#[trigger] s[i]),
    ensures
        sp_attrs(se_attrs(s) + rest, s.len() as int) == Some((s, rest)),
    decreases s.len(),
{
    if s.len() == 0 {
        assert(se_attrs(s) + rest =~= rest);
        assert(s =~= Seq::<AttributeV>::empty());
    } else {
        assert forall|i: int| 0 <= i < s.skip(1).len() implies encodable_attr(
            #[trigger] s.skip(1)[i],
        ) by {
            assert(s.skip(1)[i] == s[i + 1]);
        }
        lemma_rt_attrs(s.skip(1), rest);
        lemma_rt_attr(s[0], se_attrs(s.skip(1)) + rest);
        assert(se_attrs(s) == se_attr(s[0]) + se_attrs(s.skip(1)));
        crate::wire::seq_assoc(se_attr(s[0]), se_attrs(s.skip(1)), rest);
        assert(seq![s[0]] + s.skip(1) =~= s);
    }
}

/// One entry of the exception table of a Code attribute: the covered
/// range, the handler, and the catch type (a constant-pool index, 0
/// meaning "catches everything"), all as absolute instruction offsets or
/// indices.
#[derive(Debug, PartialEq, Eq, Clone)]
pub struct ExceptionTableEntry {
    pub start_pc: u16,
    pub end_pc: u16,
    pub handler_pc: u16,
    pub catch_type: u16,
}

/// Parse one exception table entry: four 2-byte fields.
pub open spec fn sp_exc(b: Seq<u8>) -> Option<(ExceptionTableEntry, Seq<u8>)> {
    match sp_u16(b) {
        None => None,
        Some((start_pc, r1)) => match sp_u16(r1) {
            None => None,
            Some((end_pc, r2)) => match sp_u16(r2) {
                None => None,
                Some((handler_pc, r3)) => match sp_u16(r3) {
                    None => None,
                    Some((catch_type, r4)) => Some(
                        (ExceptionTableEntry { start_pc, end_pc, handler_pc, catch_type }, r4),
                    ),
                },
            },
        },
    }
}

/// Parse exactly `n` exception table entries in order.
pub open spec fn sp_excs(b: Seq<u8>, n: int) -> Option<(Seq<ExceptionTableEntry>, Seq<u8>)>
    decreases n,
{
    if n <= 0 {
        Some((seq![], b))
    } else {
        match sp_exc(b) {
            None => None,
            Some((e, r)) => match sp_excs(r, n - 1) {
                None => None,
                Some((s, r2)) => Some((seq![e] + s, r2)),
            },
        }
    }
}

impl ExceptionTableEntry {
    /// Decode one exception table entry from the first 8 bytes of the
    /// given buffer.
    pub fn from_bytes(bytes: &Vec<u8>) -> (r: ExceptionTableEntry)
        requires
            bytes@.len() >= 8,
        ensures
            sp_exc(bytes@) matches Some((e, rest)) && e == r,
    {
        let start_pc = be16(bytes, 0);
        let end_pc = be16(bytes, 2);
        let handler_pc = be16(bytes, 4);
        let catch_type = be16(bytes, 6);
        proof {
            assert(bytes@.skip(0)[0] == bytes@[0]);
            assert(bytes@.skip(0)[1] == bytes@[1]);
            assert(bytes@.skip(0).skip(2) =~= bytes@.skip(2));
            assert(bytes@.skip(2)[0] == bytes@[2]);
            assert(bytes@.skip(2)[1] == bytes@[3]);
            assert(bytes@.skip(2).skip(2) =~= bytes@.skip(4));
            assert(bytes@.skip(4)[0] == bytes@[4]);
            assert(bytes@.skip(4)[1] == bytes@[5]);
            assert(bytes@.skip(4).skip(2) =~= bytes@.skip(6));
            assert(bytes@.skip(6)[0] == bytes@[6]);
            assert(bytes@.skip(6)[1] == bytes@[7]);
            assert(bytes@.skip(0) =~= bytes@);
        }
        ExceptionTableEntry { start_pc, end_pc, handler_pc, catch_type }
    }
}

/// The 16-bit big-endian value at `pos`.
fn be16(bytes: &Vec<u8>, pos: usize) -> (r: u16)
    requires
        pos + 2 <= bytes@.len(),
    ensures
        r == (bytes@[pos as int] as int) * 0x100 + (bytes@[pos as int + 1] as int),
{
    let n = bytes.len();
    (bytes[pos] as u16) * 0x100 + (bytes[pos + 1] as u16)
}

/// The decoded form of a "Code" attribute payload: stack and local sizing,
/// the instruction sequence keyed by absolute offsets, the exception
/// table, and the nested attribute set.
#[derive(Debug, PartialEq, Eq, Clone)]
pub struct Code {
    pub max_stack: u16,
    pub max_locals: u16,
    pub code: Vec<(usize, crate::bytecode::Bytecode)>,
    pub exception_table: Vec<ExceptionTableEntry>,
    pub attributes: AttributeSet,
}

/// The mathematical model of a decoded Code attribute.
pub struct CodeV {
    pub max_stack: u16,
    pub max_locals: u16,
    pub code: Seq<(usize, crate::bytecode::Bytecode)>,
    pub exception_table: Seq<ExceptionTableEntry>,
    pub attributes: Seq<AttributeV>,
}

impl View for Code {
    type V = CodeV;

    open spec fn view(&self) -> CodeV {
        CodeV {
            max_stack: self.max_stack,
            max_locals: self.max_locals,
            code: self.code@,
            exception_table: self.exception_table@,
            attributes: self.attributes@,
        }
    }
}

/// Parse a whole Code attribute payload: max stack, max locals, the
/// length-prefixed instruction byte range (decoded into instructions),
/// the exception table, and the nested attribute set. Trailing bytes are
/// ignored.
pub open spec fn sp_code(b: Seq<u8>) -> Option<CodeV> {
    match sp_u16(b) {
        None => None,
        Some((max_stack, r1)) => match sp_u16(r1) {
            None => None,
            Some((max_locals, r2)) => match sp_u32(r2) {
                None => None,
                Some((code_length, r3)) => match sp_bytes(r3, code_length as int) {
                    None => None,
                    Some((cb, r4)) => match crate::bytecode::sp_instrs(cb, 0) {
                        None => None,
                        Some(instrs) => match sp_u16(r4) {
                            None => None,
                            Some((excn, r5)) => match sp_excs(r5, excn as int) {
                                None => None,
                                Some((excs, r6)) => match sp_attr_set(r6) {
                                    None => None,
                                    Some((attrs, r7)) => Some(
                                        CodeV {
                                            max_stack,
                                            max_locals,
                                            code: instrs,
                                            exception_table: excs,
                                            attributes: attrs,
                                        },
                                    ),
                                },
                            },
                        },
                    },
                },
            },
        },
    }
}

impl Code {
    /// Decode a Code attribute payload. Fails on a truncated payload, on
    /// an unknown opcode in the instruction range (at exactly that
    /// offset within the range), or on an operand running past the end
    /// of the declared code length.
    pub fn from_bytes(bytes: &Vec<u8>) -> (r: Result<Code, crate::error::ClassFileError>)
        ensures
            r is Ok <==> sp_code(bytes@) is Some,
            r matches Ok(c) ==> sp_code(bytes@) == Some(c@) && crate::bytecode::code_wf(c@.code),
            r matches Err(e) ==> e is StructuralError || e is UnknownTag,
    {
        proof {
            assert(bytes@.skip(0) =~= bytes@);
        }
        let (max_stack, p1) = match crate::parsing::read_u16(bytes, 0) {
            Ok(x) => x,
            Err(e) => {
                return Err(e);
            },
        };
        let (max_locals, p2) = match crate::parsing::read_u16(bytes, p1) {
            Ok(x) => x,
            Err(e) => {
                return Err(e);
            },
        };
        let (code_length, p3) = match crate::parsing::read_u32(bytes, p2) {
            Ok(x) => x,
            Err(e) => {
                return Err(e);
            },
        };
        let (code_bytes, p4) = match crate::parsing::read_n_bytes(bytes, p3, code_length as usize) {
            Ok(x) => x,
            Err(e) => {
                return Err(e);
            },
        };
        let code = match crate::bytecode::Bytecode::from_bytes(&code_bytes) {
            Ok(x) => x,
            Err(e) => {
                return Err(e);
            },
        };
        let (excn, p5) = match crate::parsing::read_u16(bytes, p4) {
            Ok(x) => x,
            Err(e) => {
                return Err(e);
            },
        };
        let mut exception_table: Vec<ExceptionTableEntry> = Vec::new();
        let mut i: usize = 0;
        let mut cur: usize = p5;
        let ghost whole = sp_excs(bytes@.skip(p5 as int), excn as int);
        proof {
            assert(exception_table@ =~= Seq::<ExceptionTableEntry>::empty());
        }
        while i < excn as usize
            invariant
                i <= excn,
                cur <= bytes@.len(),
                whole == sp_excs(bytes@.skip(p5 as int), excn as int),
                whole is None ==> sp_code(bytes@) is None,
                whole matches Some((s_all, r_all)) ==> sp_code(bytes@) == (match sp_attr_set(
                    r_all,
                ) {
                    None => None::<CodeV>,
                    Some((attrs, rr)) => Some(
                        CodeV {
                            max_stack,
                            max_locals,
                            code: code@,
                            exception_table: s_all,
                            attributes: attrs,
                        },
                    ),
                }),
                whole is Some <==> sp_excs(bytes@.skip(cur as int), excn - i) is Some,
                sp_excs(bytes@.skip(cur as int), excn - i) matches Some((s, rr)) ==> whole == Some(
                    (exception_table@ + s, rr),
                ),
            decreases excn - i,
        {
            let ghost n_old: int = excn - i;
            let entry = match read_exception_entry(bytes, cur) {
                Ok(x) => x,
                Err(e) => {
                    proof {
                        assert(sp_exc(bytes@.skip(cur as int)) is None);
                        assert(sp_excs(bytes@.skip(cur as int), n_old) is None);
                    }
                    return Err(e);
                },
            };
            let (ee, p6) = entry;
            let ghost pv_old = exception_table@;
            let ghost ev = ee;
            exception_table.push(ee);
            proof {
                assert(exception_table@ =~= pv_old + seq![ev]);
                match sp_excs(bytes@.skip(p6 as int), n_old - 1) {
                    None => {},
                    Some((s2, r2)) => {
                        assert(pv_old + (seq![ev] + s2) =~= (pv_old + seq![ev]) + s2);
                    },
                }
            }
            cur = p6;
            i += 1;
        }
        proof {
            assert(sp_excs(bytes@.skip(cur as int), 0) == Some(
                (Seq::<ExceptionTableEntry>::empty(), bytes@.skip(cur as int)),
            ));
            assert(exception_table@ + Seq::<ExceptionTableEntry>::empty() =~= exception_table@);
        }
        let (attributes, p7) = match crate::parsing::read_attributes(bytes, cur) {
            Ok(x) => x,
            Err(e) => {
                return Err(e);
            },
        };
        Ok(Code { max_stack, max_locals, code, exception_table, attributes })
    }
}

/// Read one exception table entry at `pos`.
fn read_exception_entry(bytes: &Vec<u8>, pos: usize) -> (r: Result<
    (ExceptionTableEntry, usize),
    crate::error::ClassFileError,
>)
    ensures
        r is Ok <==> sp_exc(bytes@.skip(pos as int)) is Some && pos <= bytes@.len(),
        r matches Ok((e, p2)) ==> p2 <= bytes@.len() && sp_exc(bytes@.skip(pos as int)) == Some(
            (e, bytes@.skip(p2 as int)),
        ),
        r matches Err(e) ==> e is StructuralError,
{
    proof {
        if pos > bytes@.len() {
            assert(pos + 2 > bytes@.len());
        }
    }
    let (start_pc, p1) = match crate::parsing::read_u16(bytes, pos) {
        Ok(x) => x,
        Err(e) => {
            return Err(e);
        },
    };
    let (end_pc, p2) = match crate::parsing::read_u16(bytes, p1) {
        Ok(x) => x,
        Err(e) => {
            return Err(e);
        },
    };
    let (handler_pc, p3) = match crate::parsing::read_u16(bytes, p2) {
        Ok(x) => x,
        Err(e) => {
            return Err(e);
        },
    };
    let (catch_type, p4) = match crate::parsing::read_u16(bytes, p3) {
        Ok(x) => x,
        Err(e) => {
            return Err(e);
        },
    };
    Ok((ExceptionTableEntry { start_pc, end_pc, handler_pc, catch_type }, p4))
}

pub proof fn lemma_rt_attr_set(s: Seq<AttributeV>, rest: Seq<u8>)
    requires
        encodable_attr_set(s),
    ensures
        sp_attr_set(se_attr_set(s) + rest) == Some((s, rest)),
{
    assert(se_attr_set(s) + rest =~= se_u16(s.len() as u16) + (se_attrs(s) + rest));
    lemma_rt_u16(s.len() as u16, se_attrs(s) + rest);
    lemma_rt_attrs(s, rest);
}

} // verus!

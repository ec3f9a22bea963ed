//! Class access flags: the pure bitmask-to-flag-list mapping for the
//! `access_flags` field of the class container. The decoded list is kept in
//! a fixed canonical order, so that re-encoding and re-decoding the mask
//! yields the same list.

use vstd::prelude::*;

use crate::util::flag_is_set;

verus! {

pub const CLASS_PUBLIC_FLAG: u16 = 0x0001;

pub const CLASS_FINAL_FLAG: u16 = 0x0010;

pub const CLASS_SUPER_FLAG: u16 = 0x0020;

pub const CLASS_INTERFACE_FLAG: u16 = 0x0200;

pub const CLASS_ABSTRACT_FLAG: u16 = 0x0400;

pub const CLASS_SYNTHETIC_FLAG: u16 = 0x1000;

pub const CLASS_ANNOTATION_FLAG: u16 = 0x2000;

pub const CLASS_ENUM_FLAG: u16 = 0x4000;

pub const CLASS_MODULE_FLAG: u16 = 0x8000;

/// A flag that denotes an access level or property of a class.
#[derive(Clone, Copy, Debug, PartialEq, Eq, Structural)]
pub enum ClassAccess {
    Public,
    Final,
    Super,
    Interface,
    Abstract,
    Synthetic,
    Annotation,
    Enum,
    Module,
}

/// The bit mask of one flag.
pub open spec fn class_access_mask(a: ClassAccess) -> u16 {
    match a {
        ClassAccess::Public => CLASS_PUBLIC_FLAG,
        ClassAccess::Final => CLASS_FINAL_FLAG,
        ClassAccess::Super => CLASS_SUPER_FLAG,
        ClassAccess::Interface => CLASS_INTERFACE_FLAG,
        ClassAccess::Abstract => CLASS_ABSTRACT_FLAG,
        ClassAccess::Synthetic => CLASS_SYNTHETIC_FLAG,
        ClassAccess::Annotation => CLASS_ANNOTATION_FLAG,
        ClassAccess::Enum => CLASS_ENUM_FLAG,
        ClassAccess::Module => CLASS_MODULE_FLAG,
    }
}

/// The canonical flag list of a mask: one entry per set bit among the nine
/// known bits, in a fixed order; unknown bits are dropped.
#[verifier::opaque]
pub open spec fn class_access_list(flags: u16) -> Seq<ClassAccess> {
    (if flags & CLASS_PUBLIC_FLAG != 0 {
        seq![ClassAccess::Public]
    } else {
        seq![]
    }) + (if flags & CLASS_FINAL_FLAG != 0 {
        seq![ClassAccess::Final]
    } else {
        seq![]
    }) + (if flags & CLASS_SUPER_FLAG != 0 {
        seq![ClassAccess::Super]
    } else {
        seq![]
    }) + (if flags & CLASS_INTERFACE_FLAG != 0 {
        seq![ClassAccess::Interface]
    } else {
        seq![]
    }) + (if flags & CLASS_ABSTRACT_FLAG != 0 {
        seq![ClassAccess::Abstract]
    } else {
        seq![]
    }) + (if flags & CLASS_SYNTHETIC_FLAG != 0 {
        seq![ClassAccess::Synthetic]
    } else {
        seq![]
    }) + (if flags & CLASS_ANNOTATION_FLAG != 0 {
        seq![ClassAccess::Annotation]
    } else {
        seq![]
    }) + (if flags & CLASS_ENUM_FLAG != 0 {
        seq![ClassAccess::Enum]
    } else {
        seq![]
    }) + (if flags & CLASS_MODULE_FLAG != 0 {
        seq![ClassAccess::Module]
    } else {
        seq![]
    })
}

/// The mask of a flag list: the bitwise or of the masks of its entries.
pub open spec fn class_flags_of(s: Seq<ClassAccess>) -> u16
    decreases s.len(),
{
    if s.len() == 0 {
        0u16
    } else {
        class_flags_of(s.drop_last()) | class_access_mask(s.last())
    }
}

impl ClassAccess {
    /// Extracts the list of class access flags embedded in the given access
    /// flag value, in the canonical order.
    ///
    /// The `Err` case is reserved for an inconsistent combination of flags;
    /// no combination is currently rejected.
    pub fn from_access_flags(access_flags: u16) -> (r: Result<Vec<ClassAccess>, String>)
        ensures
            r matches Ok(v) && v@ == class_access_list(access_flags),
    {
        let ghost f = access_flags;
        let ghost t1: Seq<ClassAccess> = if f & CLASS_PUBLIC_FLAG != 0 {
            seq![ClassAccess::Public]
        } else {
            seq![]
        };
        let ghost t2: Seq<ClassAccess> = if f & CLASS_FINAL_FLAG != 0 {
            seq![ClassAccess::Final]
        } else {
            seq![]
        };
        let ghost t3: Seq<ClassAccess> = if f & CLASS_SUPER_FLAG != 0 {
            seq![ClassAccess::Super]
        } else {
            seq![]
        };
        let ghost t4: Seq<ClassAccess> = if f & CLASS_INTERFACE_FLAG != 0 {
            seq![ClassAccess::Interface]
        } else {
            seq![]
        };
        let ghost t5: Seq<ClassAccess> = if f & CLASS_ABSTRACT_FLAG != 0 {
            seq![ClassAccess::Abstract]
        } else {
            seq![]
        };
        let ghost t6: Seq<ClassAccess> = if f & CLASS_SYNTHETIC_FLAG != 0 {
            seq![ClassAccess::Synthetic]
        } else {
            seq![]
        };
        let ghost t7: Seq<ClassAccess> = if f & CLASS_ANNOTATION_FLAG != 0 {
            seq![ClassAccess::Annotation]
        } else {
            seq![]
        };
        let ghost t8: Seq<ClassAccess> = if f & CLASS_ENUM_FLAG != 0 {
            seq![ClassAccess::Enum]
        } else {
            seq![]
        };
        let ghost t9: Seq<ClassAccess> = if f & CLASS_MODULE_FLAG != 0 {
            seq![ClassAccess::Module]
        } else {
            seq![]
        };
        let mut access: Vec<ClassAccess> = Vec::new();
        proof {
            assert(Seq::<ClassAccess>::empty() + t1 =~= t1);
        }
        crate::util::append_if(&mut access, flag_is_set(CLASS_PUBLIC_FLAG, access_flags), ClassAccess::Public);
        crate::util::append_if(&mut access, flag_is_set(CLASS_FINAL_FLAG, access_flags), ClassAccess::Final);
        crate::util::append_if(&mut access, flag_is_set(CLASS_SUPER_FLAG, access_flags), ClassAccess::Super);
        crate::util::append_if(&mut access, flag_is_set(CLASS_INTERFACE_FLAG, access_flags), ClassAccess::Interface);
        crate::util::append_if(&mut access, flag_is_set(CLASS_ABSTRACT_FLAG, access_flags), ClassAccess::Abstract);
        crate::util::append_if(&mut access, flag_is_set(CLASS_SYNTHETIC_FLAG, access_flags), ClassAccess::Synthetic);
        crate::util::append_if(&mut access, flag_is_set(CLASS_ANNOTATION_FLAG, access_flags), ClassAccess::Annotation);
        crate::util::append_if(&mut access, flag_is_set(CLASS_ENUM_FLAG, access_flags), ClassAccess::Enum);
        crate::util::append_if(&mut access, flag_is_set(CLASS_MODULE_FLAG, access_flags), ClassAccess::Module);
        proof {
            reveal(class_access_list);
            assert(access@ == class_access_list(access_flags));
        }
        Ok(access)
    }

    /// The inverse direction: the 16-bit mask of a flag list.
    pub fn to_access_flags(access: &Vec<ClassAccess>) -> (r: u16)
        ensures
            r == class_flags_of(access@),
    {
        let mut flags: u16 = 0;
        let mut i: usize = 0;
        proof {
            assert(access@.take(0) =~= Seq::<ClassAccess>::empty());
        }
        while i < access.len()
            invariant
                i <= access@.len(),
                flags == class_flags_of(access@.take(i as int)),
            decreases access@.len() - i,
        {
            let m: u16 = match access[i] {
                ClassAccess::Public => CLASS_PUBLIC_FLAG,
                ClassAccess::Final => CLASS_FINAL_FLAG,
                ClassAccess::Super => CLASS_SUPER_FLAG,
                ClassAccess::Interface => CLASS_INTERFACE_FLAG,
                ClassAccess::Abstract => CLASS_ABSTRACT_FLAG,
                ClassAccess::Synthetic => CLASS_SYNTHETIC_FLAG,
                ClassAccess::Annotation => CLASS_ANNOTATION_FLAG,
                ClassAccess::Enum => CLASS_ENUM_FLAG,
                ClassAccess::Module => CLASS_MODULE_FLAG,
            };
            proof {
                assert(access@.take(i as int + 1).drop_last() =~= access@.take(i as int));
                assert(access@.take(i as int + 1).last() == access@[i as int]);
            }
            flags = flags | m;
            i += 1;
        }
        proof {
            assert(access@.take(access@.len() as int) =~= access@);
        }
        flags
    }
}

/// The mask of a concatenation is the or of the masks.
proof fn lemma_class_flags_of_concat(a: Seq<ClassAccess>, b: Seq<ClassAccess>)
    ensures
        class_flags_of(a + b) == class_flags_of(a) | class_flags_of(b),
    decreases b.len(),
{
    if b.len() == 0 {
        assert(a + b =~= a);
        let x = class_flags_of(a);
        assert(x | 0u16 == x) by (bit_vector);
    } else {
        lemma_class_flags_of_concat(a, b.drop_last());
        assert((a + b).drop_last() =~= a + b.drop_last());
        assert((a + b).last() == b.last());
        let x = class_flags_of(a);
        let y = class_flags_of(b.drop_last());
        let z = class_access_mask(b.last());
        assert((x | y) | z == x | (y | z)) by (bit_vector);
    }
}

/// Law: the canonical flag list survives a round trip through its mask.
/// Re-encoding a decoded list and decoding the result yields the same list.
#[verifier::rlimit(60)]
pub proof fn lemma_class_access_canonical(flags: u16)
    ensures
        class_access_list(class_flags_of(class_access_list(flags))) == class_access_list(flags),
{
    reveal(class_access_list);
    let t1: Seq<ClassAccess> = if flags & CLASS_PUBLIC_FLAG != 0 {
        seq![ClassAccess::Public]
    } else {
        seq![]
    };
    let t2: Seq<ClassAccess> = if flags & CLASS_FINAL_FLAG != 0 {
        seq![ClassAccess::Final]
    } else {
        seq![]
    };
    let t3: Seq<ClassAccess> = if flags & CLASS_SUPER_FLAG != 0 {
        seq![ClassAccess::Super]
    } else {
        seq![]
    };
    let t4: Seq<ClassAccess> = if flags & CLASS_INTERFACE_FLAG != 0 {
        seq![ClassAccess::Interface]
    } else {
        seq![]
    };
    let t5: Seq<ClassAccess> = if flags & CLASS_ABSTRACT_FLAG != 0 {
        seq![ClassAccess::Abstract]
    } else {
        seq![]
    };
    let t6: Seq<ClassAccess> = if flags & CLASS_SYNTHETIC_FLAG != 0 {
        seq![ClassAccess::Synthetic]
    } else {
        seq![]
    };
    let t7: Seq<ClassAccess> = if flags & CLASS_ANNOTATION_FLAG != 0 {
        seq![ClassAccess::Annotation]
    } else {
        seq![]
    };
    let t8: Seq<ClassAccess> = if flags & CLASS_ENUM_FLAG != 0 {
        seq![ClassAccess::Enum]
    } else {
        seq![]
    };
    let t9: Seq<ClassAccess> = if flags & CLASS_MODULE_FLAG != 0 {
        seq![ClassAccess::Module]
    } else {
        seq![]
    };
    let l = class_access_list(flags);
    lemma_class_flags_of_concat(t1 + t2 + t3 + t4 + t5 + t6 + t7 + t8, t9);
    lemma_class_flags_of_concat(t1 + t2 + t3 + t4 + t5 + t6 + t7, t8);
    lemma_class_flags_of_concat(t1 + t2 + t3 + t4 + t5 + t6, t7);
    lemma_class_flags_of_concat(t1 + t2 + t3 + t4 + t5, t6);
    lemma_class_flags_of_concat(t1 + t2 + t3 + t4, t5);
    lemma_class_flags_of_concat(t1 + t2 + t3, t4);
    lemma_class_flags_of_concat(t1 + t2, t3);
    lemma_class_flags_of_concat(t1, t2);
    assert(class_flags_of(Seq::<ClassAccess>::empty()) == 0u16);
    assert forall|a: ClassAccess| class_flags_of(seq![a]) == class_access_mask(a) by {
        assert(seq![a].drop_last() =~= Seq::<ClassAccess>::empty());
        let m = class_access_mask(a);
        assert(0u16 | m == m) by (bit_vector);
    }
    let g = class_flags_of(l);
    let m1: u16 = if flags & CLASS_PUBLIC_FLAG != 0 {
        CLASS_PUBLIC_FLAG
    } else {
        0u16
    };
    let m2: u16 = if flags & CLASS_FINAL_FLAG != 0 {
        CLASS_FINAL_FLAG
    } else {
        0u16
    };
    let m3: u16 = if flags & CLASS_SUPER_FLAG != 0 {
        CLASS_SUPER_FLAG
    } else {
        0u16
    };
    let m4: u16 = if flags & CLASS_INTERFACE_FLAG != 0 {
        CLASS_INTERFACE_FLAG
    } else {
        0u16
    };
    let m5: u16 = if flags & CLASS_ABSTRACT_FLAG != 0 {
        CLASS_ABSTRACT_FLAG
    } else {
        0u16
    };
    let m6: u16 = if flags & CLASS_SYNTHETIC_FLAG != 0 {
        CLASS_SYNTHETIC_FLAG
    } else {
        0u16
    };
    let m7: u16 = if flags & CLASS_ANNOTATION_FLAG != 0 {
        CLASS_ANNOTATION_FLAG
    } else {
        0u16
    };
    let m8: u16 = if flags & CLASS_ENUM_FLAG != 0 {
        CLASS_ENUM_FLAG
    } else {
        0u16
    };
    let m9: u16 = if flags & CLASS_MODULE_FLAG != 0 {
        CLASS_MODULE_FLAG
    } else {
        0u16
    };
    assert(class_flags_of(t1) == m1);
    assert(class_flags_of(t2) == m2);
    assert(class_flags_of(t3) == m3);
    assert(class_flags_of(t4) == m4);
    assert(class_flags_of(t5) == m5);
    assert(class_flags_of(t6) == m6);
    assert(class_flags_of(t7) == m7);
    assert(class_flags_of(t8) == m8);
    assert(class_flags_of(t9) == m9);
    assert(l == t1 + t2 + t3 + t4 + t5 + t6 + t7 + t8 + t9);
    assert(g == m1 | m2 | m3 | m4 | m5 | m6 | m7 | m8 | m9);
    let f = flags;
    assert({
        let g3 = (if f & 0x0001u16 != 0 {
            0x0001u16
        } else {
            0u16
        }) | (if f & 0x0010u16 != 0 {
            0x0010u16
        } else {
            0u16
        }) | (if f & 0x0020u16 != 0 {
            0x0020u16
        } else {
            0u16
        }) | (if f & 0x0200u16 != 0 {
            0x0200u16
        } else {
            0u16
        }) | (if f & 0x0400u16 != 0 {
            0x0400u16
        } else {
            0u16
        }) | (if f & 0x1000u16 != 0 {
            0x1000u16
        } else {
            0u16
        }) | (if f & 0x2000u16 != 0 {
            0x2000u16
        } else {
            0u16
        }) | (if f & 0x4000u16 != 0 {
            0x4000u16
        } else {
            0u16
        }) | (if f & 0x8000u16 != 0 {
            0x8000u16
        } else {
            0u16
        });
        &&& (g3 & 0x0001u16 != 0 <==> f & 0x0001u16 != 0)
        &&& (g3 & 0x0010u16 != 0 <==> f & 0x0010u16 != 0)
        &&& (g3 & 0x0020u16 != 0 <==> f & 0x0020u16 != 0)
        &&& (g3 & 0x0200u16 != 0 <==> f & 0x0200u16 != 0)
        &&& (g3 & 0x0400u16 != 0 <==> f & 0x0400u16 != 0)
        &&& (g3 & 0x1000u16 != 0 <==> f & 0x1000u16 != 0)
        &&& (g3 & 0x2000u16 != 0 <==> f & 0x2000u16 != 0)
        &&& (g3 & 0x4000u16 != 0 <==> f & 0x4000u16 != 0)
        &&& (g3 & 0x8000u16 != 0 <==> f & 0x8000u16 != 0)
    }) by (bit_vector);
    let g2 = (if f & 0x0001u16 != 0 {
        0x0001u16
    } else {
        0u16
    }) | (if f & 0x0010u16 != 0 {
        0x0010u16
    } else {
        0u16
    }) | (if f & 0x0020u16 != 0 {
        0x0020u16
    } else {
        0u16
    }) | (if f & 0x0200u16 != 0 {
        0x0200u16
    } else {
        0u16
    }) | (if f & 0x0400u16 != 0 {
        0x0400u16
    } else {
        0u16
    }) | (if f & 0x1000u16 != 0 {
        0x1000u16
    } else {
        0u16
    }) | (if f & 0x2000u16 != 0 {
        0x2000u16
    } else {
        0u16
    }) | (if f & 0x4000u16 != 0 {
        0x4000u16
    } else {
        0u16
    }) | (if f & 0x8000u16 != 0 {
        0x8000u16
    } else {
        0u16
    });
    assert(g == g2);
    assert(class_access_list(g) == class_access_list(flags));
}

} // verus!

//! Field access flags: the pure bitmask-to-flag-list mapping for the
//! `access_flags` field of a field record. The decoded list is kept in a
//! fixed canonical order, so that re-encoding and re-decoding the mask
//! yields the same list.

use vstd::prelude::*;

use crate::util::flag_is_set;

verus! {

pub const FIELD_PUBLIC_FLAG: u16 = 0x0001;

pub const FIELD_PRIVATE_FLAG: u16 = 0x0002;

pub const FIELD_PROTECTED_FLAG: u16 = 0x0004;

pub const FIELD_STATIC_FLAG: u16 = 0x0008;

pub const FIELD_FINAL_FLAG: u16 = 0x0010;

pub const FIELD_VOLATILE_FLAG: u16 = 0x0040;

pub const FIELD_TRANSIENT_FLAG: u16 = 0x0080;

pub const FIELD_SYNTHETIC_FLAG: u16 = 0x1000;

pub const FIELD_ENUM_FLAG: u16 = 0x4000;

/// A flag that denotes an access level or property of a field.
#[derive(Clone, Copy, Debug, PartialEq, Eq, Structural)]
pub enum FieldAccess {
    Public,
    Private,
    Protected,
    Static,
    Final,
    Volatile,
    Transient,
    Synthetic,
    Enum,
}

/// The bit mask of one flag.
pub open spec fn field_access_mask(a: FieldAccess) -> u16 {
    match a {
        FieldAccess::Public => FIELD_PUBLIC_FLAG,
        FieldAccess::Private => FIELD_PRIVATE_FLAG,
        FieldAccess::Protected => FIELD_PROTECTED_FLAG,
        FieldAccess::Static => FIELD_STATIC_FLAG,
        FieldAccess::Final => FIELD_FINAL_FLAG,
        FieldAccess::Volatile => FIELD_VOLATILE_FLAG,
        FieldAccess::Transient => FIELD_TRANSIENT_FLAG,
        FieldAccess::Synthetic => FIELD_SYNTHETIC_FLAG,
        FieldAccess::Enum => FIELD_ENUM_FLAG,
    }
}

/// The canonical flag list of a mask: one entry per set bit among the nine
/// known bits, in a fixed order; unknown bits are dropped.
#[verifier::opaque]
pub open spec fn field_access_list(flags: u16) -> Seq<FieldAccess> {
    (if flags & FIELD_PUBLIC_FLAG != 0 {
        seq![FieldAccess::Public]
    } else {
        seq![]
    }) + (if flags & FIELD_PRIVATE_FLAG != 0 {
        seq![FieldAccess::Private]
    } else {
        seq![]
    }) + (if flags & FIELD_PROTECTED_FLAG != 0 {
        seq![FieldAccess::Protected]
    } else {
        seq![]
    }) + (if flags & FIELD_STATIC_FLAG != 0 {
        seq![FieldAccess::Static]
    } else {
        seq![]
    }) + (if flags & FIELD_FINAL_FLAG != 0 {
        seq![FieldAccess::Final]
    } else {
        seq![]
    }) + (if flags & FIELD_VOLATILE_FLAG != 0 {
        seq![FieldAccess::Volatile]
    } else {
        seq![]
    }) + (if flags & FIELD_TRANSIENT_FLAG != 0 {
        seq![FieldAccess::Transient]
    } else {
        seq![]
    }) + (if flags & FIELD_SYNTHETIC_FLAG != 0 {
        seq![FieldAccess::Synthetic]
    } else {
        seq![]
    }) + (if flags & FIELD_ENUM_FLAG != 0 {
        seq![FieldAccess::Enum]
    } else {
        seq![]
    })
}

/// The mask of a flag list: the bitwise or of the masks of its entries.
pub open spec fn field_flags_of(s: Seq<FieldAccess>) -> u16
    decreases s.len(),
{
    if s.len() == 0 {
        0u16
    } else {
        field_flags_of(s.drop_last()) | field_access_mask(s.last())
    }
}

impl FieldAccess {
    /// Extracts the list of class access flags embedded in the given access
    /// flag value, in the canonical order.
    ///
    /// The `Err` case is reserved for an inconsistent combination of flags;
    /// no combination is currently rejected.
    pub fn from_access_flags(access_flags: u16) -> (r: Result<Vec<FieldAccess>, String>)
        ensures
            r matches Ok(v) && v@ == field_access_list(access_flags),
    {
        let ghost f = access_flags;
        let ghost t1: Seq<FieldAccess> = if f & FIELD_PUBLIC_FLAG != 0 {
            seq![FieldAccess::Public]
        } else {
            seq![]
        };
        let ghost t2: Seq<FieldAccess> = if f & FIELD_PRIVATE_FLAG != 0 {
            seq![FieldAccess::Private]
        } else {
            seq![]
        };
        let ghost t3: Seq<FieldAccess> = if f & FIELD_PROTECTED_FLAG != 0 {
            seq![FieldAccess::Protected]
        } else {
            seq![]
        };
        let ghost t4: Seq<FieldAccess> = if f & FIELD_STATIC_FLAG != 0 {
            seq![FieldAccess::Static]
        } else {
            seq![]
        };
        let ghost t5: Seq<FieldAccess> = if f & FIELD_FINAL_FLAG != 0 {
            seq![FieldAccess::Final]
        } else {
            seq![]
        };
        let ghost t6: Seq<FieldAccess> = if f & FIELD_VOLATILE_FLAG != 0 {
            seq![FieldAccess::Volatile]
        } else {
            seq![]
        };
        let ghost t7: Seq<FieldAccess> = if f & FIELD_TRANSIENT_FLAG != 0 {
            seq![FieldAccess::Transient]
        } else {
            seq![]
        };
        let ghost t8: Seq<FieldAccess> = if f & FIELD_SYNTHETIC_FLAG != 0 {
            seq![FieldAccess::Synthetic]
        } else {
            seq![]
        };
        let ghost t9: Seq<FieldAccess> = if f & FIELD_ENUM_FLAG != 0 {
            seq![FieldAccess::Enum]
        } else {
            seq![]
        };
        let mut access: Vec<FieldAccess> = Vec::new();
        proof {
            assert(Seq::<FieldAccess>::empty() + t1 =~= t1);
        }
        crate::util::append_if(&mut access, flag_is_set(FIELD_PUBLIC_FLAG, access_flags), FieldAccess::Public);
        crate::util::append_if(&mut access, flag_is_set(FIELD_PRIVATE_FLAG, access_flags), FieldAccess::Private);
        crate::util::append_if(&mut access, flag_is_set(FIELD_PROTECTED_FLAG, access_flags), FieldAccess::Protected);
        crate::util::append_if(&mut access, flag_is_set(FIELD_STATIC_FLAG, access_flags), FieldAccess::Static);
        crate::util::append_if(&mut access, flag_is_set(FIELD_FINAL_FLAG, access_flags), FieldAccess::Final);
        crate::util::append_if(&mut access, flag_is_set(FIELD_VOLATILE_FLAG, access_flags), FieldAccess::Volatile);
        crate::util::append_if(&mut access, flag_is_set(FIELD_TRANSIENT_FLAG, access_flags), FieldAccess::Transient);
        crate::util::append_if(&mut access, flag_is_set(FIELD_SYNTHETIC_FLAG, access_flags), FieldAccess::Synthetic);
        crate::util::append_if(&mut access, flag_is_set(FIELD_ENUM_FLAG, access_flags), FieldAccess::Enum);
        proof {
            reveal(field_access_list);
            assert(access@ == field_access_list(access_flags));
        }
        Ok(access)
    }

    /// The inverse direction: the 16-bit mask of a flag list.
    pub fn to_access_flags(access: &Vec<FieldAccess>) -> (r: u16)
        ensures
            r == field_flags_of(access@),
    {
        let mut flags: u16 = 0;
        let mut i: usize = 0;
        proof {
            assert(access@.take(0) =~= Seq::<FieldAccess>::empty());
        }
        while i < access.len()
            invariant
                i <= access@.len(),
                flags == field_flags_of(access@.take(i as int)),
            decreases access@.len() - i,
        {
            let m: u16 = match access[i] {
                FieldAccess::Public => FIELD_PUBLIC_FLAG,
                FieldAccess::Private => FIELD_PRIVATE_FLAG,
                FieldAccess::Protected => FIELD_PROTECTED_FLAG,
                FieldAccess::Static => FIELD_STATIC_FLAG,
                FieldAccess::Final => FIELD_FINAL_FLAG,
                FieldAccess::Volatile => FIELD_VOLATILE_FLAG,
                FieldAccess::Transient => FIELD_TRANSIENT_FLAG,
                FieldAccess::Synthetic => FIELD_SYNTHETIC_FLAG,
                FieldAccess::Enum => FIELD_ENUM_FLAG,
            };
            proof {
                assert(access@.take(i as int + 1).drop_last() =~= access@.take(i as int));
                assert(access@.take(i as int + 1).last() == access@[i as int]);
            }
            flags = flags | m;
            i += 1;
        }
        proof {
            assert(access@.take(access@.len() as int) =~= access@);
        }
        flags
    }
}

/// The mask of a concatenation is the or of the masks.
proof fn lemma_field_flags_of_concat(a: Seq<FieldAccess>, b: Seq<FieldAccess>)
    ensures
        field_flags_of(a + b) == field_flags_of(a) | field_flags_of(b),
    decreases b.len(),
{
    if b.len() == 0 {
        assert(a + b =~= a);
        let x = field_flags_of(a);
        assert(x | 0u16 == x) by (bit_vector);
    } else {
        lemma_field_flags_of_concat(a, b.drop_last());
        assert((a + b).drop_last() =~= a + b.drop_last());
        assert((a + b).last() == b.last());
        let x = field_flags_of(a);
        let y = field_flags_of(b.drop_last());
        let z = field_access_mask(b.last());
        assert((x | y) | z == x | (y | z)) by (bit_vector);
    }
}

/// Law: the canonical flag list survives a round trip through its mask.
/// Re-encoding a decoded list and decoding the result yields the same list.
#[verifier::rlimit(60)]
pub proof fn lemma_field_access_canonical(flags: u16)
    ensures
        field_access_list(field_flags_of(field_access_list(flags))) == field_access_list(flags),
{
    reveal(field_access_list);
    let t1: Seq<FieldAccess> = if flags & FIELD_PUBLIC_FLAG != 0 {
        seq![FieldAccess::Public]
    } else {
        seq![]
    };
    let t2: Seq<FieldAccess> = if flags & FIELD_PRIVATE_FLAG != 0 {
        seq![FieldAccess::Private]
    } else {
        seq![]
    };
    let t3: Seq<FieldAccess> = if flags & FIELD_PROTECTED_FLAG != 0 {
        seq![FieldAccess::Protected]
    } else {
        seq![]
    };
    let t4: Seq<FieldAccess> = if flags & FIELD_STATIC_FLAG != 0 {
        seq![FieldAccess::Static]
    } else {
        seq![]
    };
    let t5: Seq<FieldAccess> = if flags & FIELD_FINAL_FLAG != 0 {
        seq![FieldAccess::Final]
    } else {
        seq![]
    };
    let t6: Seq<FieldAccess> = if flags & FIELD_VOLATILE_FLAG != 0 {
        seq![FieldAccess::Volatile]
    } else {
        seq![]
    };
    let t7: Seq<FieldAccess> = if flags & FIELD_TRANSIENT_FLAG != 0 {
        seq![FieldAccess::Transient]
    } else {
        seq![]
    };
    let t8: Seq<FieldAccess> = if flags & FIELD_SYNTHETIC_FLAG != 0 {
        seq![FieldAccess::Synthetic]
    } else {
        seq![]
    };
    let t9: Seq<FieldAccess> = if flags & FIELD_ENUM_FLAG != 0 {
        seq![FieldAccess::Enum]
    } else {
        seq![]
    };
    let l = field_access_list(flags);
    lemma_field_flags_of_concat(t1 + t2 + t3 + t4 + t5 + t6 + t7 + t8, t9);
    lemma_field_flags_of_concat(t1 + t2 + t3 + t4 + t5 + t6 + t7, t8);
    lemma_field_flags_of_concat(t1 + t2 + t3 + t4 + t5 + t6, t7);
    lemma_field_flags_of_concat(t1 + t2 + t3 + t4 + t5, t6);
    lemma_field_flags_of_concat(t1 + t2 + t3 + t4, t5);
    lemma_field_flags_of_concat(t1 + t2 + t3, t4);
    lemma_field_flags_of_concat(t1 + t2, t3);
    lemma_field_flags_of_concat(t1, t2);
    assert(field_flags_of(Seq::<FieldAccess>::empty()) == 0u16);
    assert forall|a: FieldAccess| field_flags_of(seq![a]) == field_access_mask(a) by {
        assert(seq![a].drop_last() =~= Seq::<FieldAccess>::empty());
        let m = field_access_mask(a);
        assert(0u16 | m == m) by (bit_vector);
    }
    let g = field_flags_of(l);
    let m1: u16 = if flags & FIELD_PUBLIC_FLAG != 0 {
        FIELD_PUBLIC_FLAG
    } else {
        0u16
    };
    let m2: u16 = if flags & FIELD_PRIVATE_FLAG != 0 {
        FIELD_PRIVATE_FLAG
    } else {
        0u16
    };
    let m3: u16 = if flags & FIELD_PROTECTED_FLAG != 0 {
        FIELD_PROTECTED_FLAG
    } else {
        0u16
    };
    let m4: u16 = if flags & FIELD_STATIC_FLAG != 0 {
        FIELD_STATIC_FLAG
    } else {
        0u16
    };
    let m5: u16 = if flags & FIELD_FINAL_FLAG != 0 {
        FIELD_FINAL_FLAG
    } else {
        0u16
    };
    let m6: u16 = if flags & FIELD_VOLATILE_FLAG != 0 {
        FIELD_VOLATILE_FLAG
    } else {
        0u16
    };
    let m7: u16 = if flags & FIELD_TRANSIENT_FLAG != 0 {
        FIELD_TRANSIENT_FLAG
    } else {
        0u16
    };
    let m8: u16 = if flags & FIELD_SYNTHETIC_FLAG != 0 {
        FIELD_SYNTHETIC_FLAG
    } else {
        0u16
    };
    let m9: u16 = if flags & FIELD_ENUM_FLAG != 0 {
        FIELD_ENUM_FLAG
    } else {
        0u16
    };
    assert(field_flags_of(t1) == m1);
    assert(field_flags_of(t2) == m2);
    assert(field_flags_of(t3) == m3);
    assert(field_flags_of(t4) == m4);
    assert(field_flags_of(t5) == m5);
    assert(field_flags_of(t6) == m6);
    assert(field_flags_of(t7) == m7);
    assert(field_flags_of(t8) == m8);
    assert(field_flags_of(t9) == m9);
    assert(l == t1 + t2 + t3 + t4 + t5 + t6 + t7 + t8 + t9);
    assert(g == m1 | m2 | m3 | m4 | m5 | m6 | m7 | m8 | m9);
    let f = flags;
    assert({
        let g3 = (if f & 0x0001u16 != 0 {
            0x0001u16
        } else {
            0u16
        }) | (if f & 0x0002u16 != 0 {
            0x0002u16
        } else {
            0u16
        }) | (if f & 0x0004u16 != 0 {
            0x0004u16
        } else {
            0u16
        }) | (if f & 0x0008u16 != 0 {
            0x0008u16
        } else {
            0u16
        }) | (if f & 0x0010u16 != 0 {
            0x0010u16
        } else {
            0u16
        }) | (if f & 0x0040u16 != 0 {
            0x0040u16
        } else {
            0u16
        }) | (if f & 0x0080u16 != 0 {
            0x0080u16
        } else {
            0u16
        }) | (if f & 0x1000u16 != 0 {
            0x1000u16
        } else {
            0u16
        }) | (if f & 0x4000u16 != 0 {
            0x4000u16
        } else {
            0u16
        });
        &&& (g3 & 0x0001u16 != 0 <==> f & 0x0001u16 != 0)
        &&& (g3 & 0x0002u16 != 0 <==> f & 0x0002u16 != 0)
        &&& (g3 & 0x0004u16 != 0 <==> f & 0x0004u16 != 0)
        &&& (g3 & 0x0008u16 != 0 <==> f & 0x0008u16 != 0)
        &&& (g3 & 0x0010u16 != 0 <==> f & 0x0010u16 != 0)
        &&& (g3 & 0x0040u16 != 0 <==> f & 0x0040u16 != 0)
        &&& (g3 & 0x0080u16 != 0 <==> f & 0x0080u16 != 0)
        &&& (g3 & 0x1000u16 != 0 <==> f & 0x1000u16 != 0)
        &&& (g3 & 0x4000u16 != 0 <==> f & 0x4000u16 != 0)
    }) by (bit_vector);
    let g2 = (if f & 0x0001u16 != 0 {
        0x0001u16
    } else {
        0u16
    }) | (if f & 0x0002u16 != 0 {
        0x0002u16
    } else {
        0u16
    }) | (if f & 0x0004u16 != 0 {
        0x0004u16
    } else {
        0u16
    }) | (if f & 0x0008u16 != 0 {
        0x0008u16
    } else {
        0u16
    }) | (if f & 0x0010u16 != 0 {
        0x0010u16
    } else {
        0u16
    }) | (if f & 0x0040u16 != 0 {
        0x0040u16
    } else {
        0u16
    }) | (if f & 0x0080u16 != 0 {
        0x0080u16
    } else {
        0u16
    }) | (if f & 0x1000u16 != 0 {
        0x1000u16
    } else {
        0u16
    }) | (if f & 0x4000u16 != 0 {
        0x4000u16
    } else {
        0u16
    });
    assert(g == g2);
    assert(field_access_list(g) == field_access_list(flags));
}

} // verus!

//! Identifier mapping: from a description-level field or table name to
//! a target-side accessor expression and a display format specifier.
//!
//! The rules are prefix-based and specific to one instruction set's
//! naming conventions (opcode-bit-range names, register-class names
//! keyed by bit-offset substrings, condition/flag-bit names, one fixed
//! fourth-register name): they are configuration, not generic logic.
//! A name that matches no rule maps to itself and to `%s`, so the
//! generator stays usable for subsets the tables do not cover yet; a
//! name too short to carry a rule's offsets falls back the same way.

use vstd::prelude::*;

verus! {

/// Whether `p` is a prefix of `s`.
pub fn has_prefix(s: &str, p: &str) -> (r: bool)
    ensures
        r == p@.is_prefix_of(s@),
{
    let n = p.unicode_len();
    let m = s.unicode_len();
    if n > m {
        return false;
    }
    let mut i: usize = 0;
    while i < n
        invariant
            i <= n,
            n == p@.len(),
            n <= s@.len(),
            forall|j: int| 0 <= j < i ==> s@[j] == p@[j],
        decreases n - i,
    {
        if s.get_char(i) != p.get_char(i) {
            proof {
                assert(s@.subrange(0, n as int)[i as int] == s@[i as int]);
            }
            return false;
        }
        i = i + 1;
    }
    proof {
        assert(p@ =~= s@.subrange(0, n as int));
    }
    true
}

/// Whether two strings hold the same characters.
pub fn str_eq(s: &str, t: &str) -> (r: bool)
    ensures
        r == (s@ == t@),
{
    if s.unicode_len() != t.unicode_len() {
        return false;
    }
    let r = has_prefix(s, t);
    proof {
        if r {
            assert(s@.subrange(0, s@.len() as int) =~= s@);
        } else if s@ == t@ {
            assert(t@ =~= s@.subrange(0, t@.len() as int));
        }
    }
    r
}

/// The accessor a name maps to in condition and argument positions.
pub open spec fn spec_id_mapper(s: Seq<char>) -> Seq<char> {
    if "op"@.is_prefix_of(s) {
        if s.len() >= 6 {
            "OP("@ + s.subrange(2, 4) + ", "@ + s.subrange(4, 6) + ")"@
        } else {
            s
        }
    } else if "R"@.is_prefix_of(s) {
        if s.len() >= 5 && s.subrange(1, 5) == "0004"@ {
            "R1"@
        } else if s.len() >= 5 && s.subrange(1, 5) == "1115"@ {
            "R2"@
        } else if s.len() >= 5 && s.subrange(1, 5) == "2731"@ {
            "R3"@
        } else {
            s
        }
    } else if "fcbit"@.is_prefix_of(s) {
        if s.len() >= 9 {
            "slice(inst->d, "@ + s.subrange(5, 7) + ", "@ + s.subrange(7, 9) + ")"@
        } else {
            s
        }
    } else if "fcond"@.is_prefix_of(s) {
        if s.len() >= 9 {
            "conds[slice(inst->d, "@ + s.subrange(5, 7) + ", "@ + s.subrange(7, 9) + ")]"@
        } else {
            s
        }
    } else if s == "reg4"@ {
        "R4"@
    } else {
        s
    }
}

/// The accessor a name maps to when reading the raw instruction word.
pub open spec fn spec_token_field_mapper(s: Seq<char>) -> Seq<char> {
    if "R"@.is_prefix_of(s) {
        if s.len() >= 5 && s.subrange(1, 5) == "0004"@ {
            "get_reg1(inst)"@
        } else if s.len() >= 5 && s.subrange(1, 5) == "1115"@ {
            "get_reg2(inst)"@
        } else if s.len() >= 5 && s.subrange(1, 5) == "2731"@ {
            "get_reg3(inst)"@
        } else {
            s
        }
    } else if "fcbit"@.is_prefix_of(s) || "fcond"@.is_prefix_of(s) {
        if s.len() >= 9 {
            "slice(inst->d, "@ + s.subrange(5, 7) + ", "@ + s.subrange(7, 9) + ")"@
        } else {
            s
        }
    } else if s == "reg4"@ {
        "get_reg4(inst)"@
    } else {
        s
    }
}

/// The printf-style format specifier a name maps to.
pub open spec fn spec_formater(s: Seq<char>) -> Seq<char> {
    if "op"@.is_prefix_of(s) {
        "%x"@
    } else if "fcbit"@.is_prefix_of(s) {
        "%d"@
    } else if "fcond"@.is_prefix_of(s) {
        "%s"@
    } else if "R"@.is_prefix_of(s) {
        "%s"@
    } else {
        "%s"@
    }
}

/// Maps a field or table name to its accessor for condition and
/// argument positions.
pub fn id_mapper(name: &str) -> (r: String)
    ensures
        r@ == spec_id_mapper(name@),
{
    let len = name.unicode_len();
    if has_prefix(name, "op") {
        if len >= 6 {
            let mut out = "OP(".to_owned();
            out.append(name.substring_char(2, 4));
            out.append(", ");
            out.append(name.substring_char(4, 6));
            out.append(")");
            proof {
                assert(out@ =~= spec_id_mapper(name@));
            }
            out
        } else {
            name.to_owned()
        }
    } else if has_prefix(name, "R") {
        if len >= 5 {
            let mid = name.substring_char(1, 5);
            if str_eq(mid, "0004") {
                "R1".to_owned()
            } else if str_eq(mid, "1115") {
                "R2".to_owned()
            } else if str_eq(mid, "2731") {
                "R3".to_owned()
            } else {
                name.to_owned()
            }
        } else {
            name.to_owned()
        }
    } else if has_prefix(name, "fcbit") {
        if len >= 9 {
            let mut out = "slice(inst->d, ".to_owned();
            out.append(name.substring_char(5, 7));
            out.append(", ");
            out.append(name.substring_char(7, 9));
            out.append(")");
            proof {
                assert(out@ =~= spec_id_mapper(name@));
            }
            out
        } else {
            name.to_owned()
        }
    } else if has_prefix(name, "fcond") {
        if len >= 9 {
            let mut out = "conds[slice(inst->d, ".to_owned();
            out.append(name.substring_char(5, 7));
            out.append(", ");
            out.append(name.substring_char(7, 9));
            out.append(")]");
            proof {
                assert(out@ =~= spec_id_mapper(name@));
            }
            out
        } else {
            name.to_owned()
        }
    } else if str_eq(name, "reg4") {
        "R4".to_owned()
    } else {
        name.to_owned()
    }
}

/// Maps a field or table name to its raw-instruction-word accessor.
pub fn token_field_mapper(name: &str) -> (r: String)
    ensures
        r@ == spec_token_field_mapper(name@),
{
    let len = name.unicode_len();
    if has_prefix(name, "R") {
        if len >= 5 {
            let mid = name.substring_char(1, 5);
            if str_eq(mid, "0004") {
                "get_reg1(inst)".to_owned()
            } else if str_eq(mid, "1115") {
                "get_reg2(inst)".to_owned()
            } else if str_eq(mid, "2731") {
                "get_reg3(inst)".to_owned()
            } else {
                name.to_owned()
            }
        } else {
            name.to_owned()
        }
    } else if has_prefix(name, "fcbit") || has_prefix(name, "fcond") {
        if len >= 9 {
            let mut out = "slice(inst->d, ".to_owned();
            out.append(name.substring_char(5, 7));
            out.append(", ");
            out.append(name.substring_char(7, 9));
            out.append(")");
            proof {
                assert(out@ =~= spec_token_field_mapper(name@));
            }
            out
        } else {
            name.to_owned()
        }
    } else if str_eq(name, "reg4") {
        "get_reg4(inst)".to_owned()
    } else {
        name.to_owned()
    }
}

/// Maps a field or table name to its display format specifier.
pub fn formater(name: &str) -> (r: &'static str)
    ensures
        r@ == spec_formater(name@),
{
    if has_prefix(name, "op") {
        "%x"
    } else if has_prefix(name, "fcbit") {
        "%d"
    } else if has_prefix(name, "fcond") {
        "%s"
    } else if has_prefix(name, "R") {
        "%s"
    } else {
        "%s"
    }
}

/// Identifier mapping determinism: the mapping rules are pure functions
/// of the name alone, so any two results of mapping the same name are
/// the same accessors and the same format specifier.
pub proof fn lemma_identifier_mapping_deterministic(
    name: Seq<char>,
    acc1: Seq<char>,
    acc2: Seq<char>,
    raw1: Seq<char>,
    raw2: Seq<char>,
    fmt1: Seq<char>,
    fmt2: Seq<char>,
)
    requires
        acc1 == spec_id_mapper(name),
        acc2 == spec_id_mapper(name),
        raw1 == spec_token_field_mapper(name),
        raw2 == spec_token_field_mapper(name),
        fmt1 == spec_formater(name),
        fmt2 == spec_formater(name),
    ensures
        acc1 == acc2,
        raw1 == raw2,
        fmt1 == fmt2,
{
}

} // verus!

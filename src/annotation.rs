//! Annotations and the element values they carry, which nest to a depth the
//! stream decides; and type annotations, which add a target to an annotation.
//!
//! In the spec functions below, `cp` is the pool seen as its name table
//! (`utf8_table`): the only part of the pool that decoding looks into.
use vstd::prelude::*;
use std::sync::Arc;
use crate::bytes::{DecodeError, fits, be16, read_u8, read_u16};
use crate::items::{items_end, items_rel, lemma_items_fail, lemma_items_push};
use crate::constant_pool::{Type as CpType, name_at, utf8_table, get_utf8};
use crate::attributes::{
    EV_ANNOTATION, EV_ARRAY, EV_BOOLEAN, EV_BYTE, EV_CHAR, EV_CLASS, EV_DOUBLE, EV_ENUM, EV_FLOAT,
    EV_INT, EV_LONG, EV_SHORT, EV_STRING,
    AnnotationElementValue, AnnotationEntry, ElementValuePair, ElementValueTag, ElementValueType,
    LocalVarTargetTable, TargetInfo, TypeAnnotation, TypePath,
};
use crate::records::{
    local_var_target_end_f, local_var_target_rel_f, local_var_target_list, type_path_end_f,
    type_path_rel_f, type_path_list,
};

verus! {

/// Element-value kinds whose operand is one 16-bit index.
pub open spec fn single_index_tag(t: u8) -> bool {
    t == EV_BYTE || t == EV_CHAR || t == EV_DOUBLE || t == EV_FLOAT || t == EV_INT || t == EV_LONG || t == EV_SHORT
        || t == EV_BOOLEAN || t == EV_STRING || t == EV_CLASS
}

/// Where the element value that starts at `p` ends, if it decodes.
pub open spec fn ev_end(b: Seq<u8>, p: int, lim: int, cp: Seq<Option<Seq<u8>>>) -> Option<int>
    decreases lim - p, 0int,
{
    if !fits(p, 1, lim) {
        None
    } else {
        let t = b[p];
        if single_index_tag(t) {
            if fits(p + 1, 2, lim) {
                Some(p + 3)
            } else {
                None
            }
        } else if t == EV_ENUM {
            if fits(p + 1, 4, lim) {
                Some(p + 5)
            } else {
                None
            }
        } else if t == EV_ANNOTATION {
            ann_end(b, p + 1, lim, cp)
        } else if t == EV_ARRAY {
            if fits(p + 1, 2, lim) {
                evs_end(b, p + 3, lim, cp, be16(b, p + 1) as int)
            } else {
                None
            }
        } else {
            Some(p + 1)
        }
    }
}

/// Where `n` element values laid end to end from `p` end.
pub open spec fn evs_end(b: Seq<u8>, p: int, lim: int, cp: Seq<Option<Seq<u8>>>, n: int) -> Option<int>
    decreases lim - p, n,
{
    if n <= 0 {
        Some(p)
    } else {
        match evs_end(b, p, lim, cp, n - 1) {
            Some(q) => if p <= q <= lim {
                ev_end(b, q, lim, cp)
            } else {
                None
            },
            None => None,
        }
    }
}

/// Where the annotation that starts at `p` ends: its type index must name a
/// `Utf8` entry.
pub open spec fn ann_end(b: Seq<u8>, p: int, lim: int, cp: Seq<Option<Seq<u8>>>) -> Option<int>
    decreases lim - p, 0int,
{
    if fits(p, 4, lim) {
        match pairs_end(b, p + 4, lim, cp, be16(b, p + 2) as int) {
            Some(e) => if name_at(cp, be16(b, p) as int) is Some {
                Some(e)
            } else {
                None
            },
            None => None,
        }
    } else {
        None
    }
}

/// Where `n` (name index, element value) pairs laid end to end from `p` end.
pub open spec fn pairs_end(b: Seq<u8>, p: int, lim: int, cp: Seq<Option<Seq<u8>>>, n: int) -> Option<int>
    decreases lim - p, n,
{
    if n <= 0 {
        Some(p)
    } else {
        match pairs_end(b, p, lim, cp, n - 1) {
            Some(q) => if p <= q && fits(q, 2, lim) {
                ev_end(b, q + 2, lim, cp)
            } else {
                None
            },
            None => None,
        }
    }
}

/// `v` is the element value that the bytes at `p` encode.
pub open spec fn ev_rel(b: Seq<u8>, p: int, lim: int, cp: Seq<Option<Seq<u8>>>, v: ElementValueType) -> bool
    decreases lim - p, 0int,
{
    if !fits(p, 1, lim) {
        false
    } else {
        let t = b[p];
        let i = be16(b, p + 1);
        if t == EV_BYTE {
            v == ElementValueType::Byte { val_index: i }
        } else if t == EV_CHAR {
            v == ElementValueType::Char { val_index: i }
        } else if t == EV_DOUBLE {
            v == ElementValueType::Double { val_index: i }
        } else if t == EV_FLOAT {
            v == ElementValueType::Float { val_index: i }
        } else if t == EV_INT {
            v == ElementValueType::Int { val_index: i }
        } else if t == EV_LONG {
            v == ElementValueType::Long { val_index: i }
        } else if t == EV_SHORT {
            v == ElementValueType::Short { val_index: i }
        } else if t == EV_BOOLEAN {
            v == ElementValueType::Boolean { val_index: i }
        } else if t == EV_STRING {
            v == ElementValueType::String { val_index: i }
        } else if t == EV_CLASS {
            v == ElementValueType::Class { index: i }
        } else if t == EV_ENUM {
            v == ElementValueType::Enum { type_index: i, val_index: be16(b, p + 3) }
        } else if t == EV_ANNOTATION {
            v matches ElementValueType::Annotation(a) && ann_rel(b, p + 1, lim, cp, a.value)
        } else if t == EV_ARRAY {
            fits(p + 1, 2, lim) && (v matches ElementValueType::Array { values } && values@.len()
                == i && evs_rel(b, p + 3, lim, cp, values@))
        } else {
            v == ElementValueType::Unknown
        }
    }
}

/// `s` are the element values laid end to end from `p`.
pub open spec fn evs_rel(b: Seq<u8>, p: int, lim: int, cp: Seq<Option<Seq<u8>>>, s: Seq<ElementValueType>) -> bool
    decreases lim - p, 1int,
{
    forall|k: int|
        0 <= k < s.len() ==> (#[trigger] evs_end(b, p, lim, cp, k) matches Some(q) && p <= q <= lim
            && ev_rel(b, q, lim, cp, s[k]))
}

/// `a` is the annotation that the bytes at `p` encode, its type name looked up
/// in the pool.
pub open spec fn ann_rel(b: Seq<u8>, p: int, lim: int, cp: Seq<Option<Seq<u8>>>, a: AnnotationEntry) -> bool
    decreases lim - p, 0int,
{
    fits(p, 4, lim) && name_at(cp, be16(b, p) as int) == Some(a.type_descriptor@) && a.pairs@.len()
        == be16(b, p + 2) && pairs_rel(b, p + 4, lim, cp, a.pairs@)
}

/// `s` are the pairs laid end to end from `p`.
pub open spec fn pairs_rel(b: Seq<u8>, p: int, lim: int, cp: Seq<Option<Seq<u8>>>, s: Seq<ElementValuePair>) -> bool
    decreases lim - p, 1int,
{
    forall|k: int|
        0 <= k < s.len() ==> (#[trigger] pairs_end(b, p, lim, cp, k) matches Some(q) && p <= q
            && fits(q, 2, lim) && s[k].name_index == be16(b, q) && ev_rel(b, q + 2, lim, cp, s[k].value))
}

proof fn lemma_evs_fail(b: Seq<u8>, p: int, lim: int, cp: Seq<Option<Seq<u8>>>, i: int, n: int)
    requires
        0 <= i <= n,
        evs_end(b, p, lim, cp, i) is None,
    ensures
        evs_end(b, p, lim, cp, n) is None,
    decreases n - i,
{
    if i < n {
        lemma_evs_fail(b, p, lim, cp, i, n - 1);
    }
}

proof fn lemma_pairs_fail(b: Seq<u8>, p: int, lim: int, cp: Seq<Option<Seq<u8>>>, i: int, n: int)
    requires
        0 <= i <= n,
        pairs_end(b, p, lim, cp, i) is None,
    ensures
        pairs_end(b, p, lim, cp, n) is None,
    decreases n - i,
{
    if i < n {
        lemma_pairs_fail(b, p, lim, cp, i, n - 1);
    }
}

/// Decodes one element value: a kind byte, then that kind's operands. A kind
/// byte that names no kind gives `Unknown`.
pub fn element_value(b: &[u8], pos: usize, lim: usize, cp: &Arc<Vec<CpType>>) -> (r: Result<(ElementValueType, usize), DecodeError>)
    requires
        lim <= b@.len(),
    ensures
        match r {
            Ok((v, e)) => ev_end(b@, pos as int, lim as int, utf8_table(cp@)) == Some(e as int) && ev_rel(
                b@,
                pos as int,
                lim as int,
                utf8_table(cp@),
                v,
            ) && pos < e <= lim,
            Err(_) => ev_end(b@, pos as int, lim as int, utf8_table(cp@)) is None,
        },
    decreases lim - pos, 0int,
{
    let t = read_u8(b, pos, lim)?;
    match ElementValueTag::from(t) {
        ElementValueTag::Enum => {
            let type_index = read_u16(b, pos + 1, lim)?;
            let val_index = read_u16(b, pos + 3, lim)?;
            Ok((ElementValueType::Enum { type_index, val_index }, pos + 5))
        },
        ElementValueTag::Annotation => {
            let (value, e) = annotation_entry(b, pos + 1, lim, cp)?;
            Ok((ElementValueType::Annotation(AnnotationElementValue { value }), e))
        },
        ElementValueTag::Array => {
            let n = read_u16(b, pos + 1, lim)?;
            let (values, e) = element_values(b, pos + 3, lim, cp, n as usize)?;
            Ok((ElementValueType::Array { values }, e))
        },
        ElementValueTag::Unknown => Ok((ElementValueType::Unknown, pos + 1)),
        tag => {
            let i = read_u16(b, pos + 1, lim)?;
            let v = match tag {
                ElementValueTag::Byte => ElementValueType::Byte { val_index: i },
                ElementValueTag::Char => ElementValueType::Char { val_index: i },
                ElementValueTag::Double => ElementValueType::Double { val_index: i },
                ElementValueTag::Float => ElementValueType::Float { val_index: i },
                ElementValueTag::Int => ElementValueType::Int { val_index: i },
                ElementValueTag::Long => ElementValueType::Long { val_index: i },
                ElementValueTag::Short => ElementValueType::Short { val_index: i },
                ElementValueTag::Boolean => ElementValueType::Boolean { val_index: i },
                ElementValueTag::String => ElementValueType::String { val_index: i },
                _ => ElementValueType::Class { index: i },
            };
            Ok((v, pos + 3))
        },
    }
}

/// Decodes `n` element values laid end to end.
pub fn element_values(b: &[u8], pos: usize, lim: usize, cp: &Arc<Vec<CpType>>, n: usize) -> (r: Result<(Vec<ElementValueType>, usize), DecodeError>)
    requires
        lim <= b@.len(),
        pos <= lim,
    ensures
        match r {
            Ok((s, e)) => evs_end(b@, pos as int, lim as int, utf8_table(cp@), n as int) == Some(e as int)
                && s@.len() == n && evs_rel(b@, pos as int, lim as int, utf8_table(cp@), s@) && pos <= e <= lim,
            Err(_) => evs_end(b@, pos as int, lim as int, utf8_table(cp@), n as int) is None,
        },
    decreases lim - pos, 1int,
{
    let mut out: Vec<ElementValueType> = Vec::new();
    let mut q = pos;
    let mut i: usize = 0;
    while i < n
        invariant
            lim <= b@.len(),
            pos <= q <= lim,
            0 <= i <= n,
            out@.len() == i,
            evs_end(b@, pos as int, lim as int, utf8_table(cp@), i as int) == Some(q as int),
            evs_rel(b@, pos as int, lim as int, utf8_table(cp@), out@),
        decreases n - i,
    {
        match element_value(b, q, lim, cp) {
            Ok((v, e)) => {
                let ghost old_out = out@;
                out.push(v);
                assert forall|k: int| 0 <= k < out@.len() implies (#[trigger] evs_end(
                    b@,
                    pos as int,
                    lim as int,
                    utf8_table(cp@),
                    k,
                ) matches Some(r) && pos <= r <= lim && ev_rel(b@, r, lim as int, utf8_table(cp@), out@[k])) by {
                    if k < i {
                        assert(out@[k] == old_out[k]);
                    }
                }
                q = e;
                i += 1;
            },
            Err(err) => {
                proof {
                    lemma_evs_fail(b@, pos as int, lim as int, utf8_table(cp@), i as int + 1, n as int);
                }
                return Err(err);
            },
        }
    }
    Ok((out, q))
}

/// Decodes `n` (name index, element value) pairs laid end to end.
pub fn element_value_pairs(b: &[u8], pos: usize, lim: usize, cp: &Arc<Vec<CpType>>, n: usize) -> (r: Result<(Vec<ElementValuePair>, usize), DecodeError>)
    requires
        lim <= b@.len(),
        pos <= lim,
    ensures
        match r {
            Ok((s, e)) => pairs_end(b@, pos as int, lim as int, utf8_table(cp@), n as int) == Some(e as int)
                && s@.len() == n && pairs_rel(b@, pos as int, lim as int, utf8_table(cp@), s@) && pos <= e <= lim,
            Err(_) => pairs_end(b@, pos as int, lim as int, utf8_table(cp@), n as int) is None,
        },
    decreases lim - pos, 1int,
{
    let mut out: Vec<ElementValuePair> = Vec::new();
    let mut q = pos;
    let mut i: usize = 0;
    while i < n
        invariant
            lim <= b@.len(),
            pos <= q <= lim,
            0 <= i <= n,
            out@.len() == i,
            pairs_end(b@, pos as int, lim as int, utf8_table(cp@), i as int) == Some(q as int),
            pairs_rel(b@, pos as int, lim as int, utf8_table(cp@), out@),
        decreases n - i,
    {
        let name_index = match read_u16(b, q, lim) {
            Ok(x) => x,
            Err(err) => {
                proof {
                    lemma_pairs_fail(b@, pos as int, lim as int, utf8_table(cp@), i as int + 1, n as int);
                }
                return Err(err);
            },
        };
        match element_value(b, q + 2, lim, cp) {
            Ok((value, e)) => {
                let ghost old_out = out@;
                out.push(ElementValuePair { name_index, value });
                assert forall|k: int| 0 <= k < out@.len() implies (#[trigger] pairs_end(
                    b@,
                    pos as int,
                    lim as int,
                    utf8_table(cp@),
                    k,
                ) matches Some(r) && pos <= r && fits(r, 2, lim as int) && out@[k].name_index
                    == be16(b@, r) && ev_rel(b@, r + 2, lim as int, utf8_table(cp@), out@[k].value)) by {
                    if k < i {
                        assert(out@[k] == old_out[k]);
                    }
                }
                q = e;
                i += 1;
            },
            Err(err) => {
                proof {
                    lemma_pairs_fail(b@, pos as int, lim as int, utf8_table(cp@), i as int + 1, n as int);
                }
                return Err(err);
            },
        }
    }
    Ok((out, q))
}

/// Decodes one annotation: a type index, a pair count, the pairs. The type
/// index must name a `Utf8` entry of the pool.
pub fn annotation_entry(b: &[u8], pos: usize, lim: usize, cp: &Arc<Vec<CpType>>) -> (r: Result<(AnnotationEntry, usize), DecodeError>)
    requires
        lim <= b@.len(),
    ensures
        match r {
            Ok((v, e)) => ann_end(b@, pos as int, lim as int, utf8_table(cp@)) == Some(e as int) && ann_rel(
                b@,
                pos as int,
                lim as int,
                utf8_table(cp@),
                v,
            ) && pos < e <= lim,
            Err(_) => ann_end(b@, pos as int, lim as int, utf8_table(cp@)) is None,
        },
    decreases lim - pos, 0int,
{
    let type_index = read_u16(b, pos, lim)?;
    let count = read_u16(b, pos + 2, lim)?;
    let (pairs, e) = element_value_pairs(b, pos + 4, lim, cp, count as usize)?;
    let type_descriptor = match get_utf8(cp, type_index as usize) {
        Some(name) => name,
        None => return Err(DecodeError::Malformed),
    };
    Ok((AnnotationEntry { type_descriptor, pairs }, e))
}

/// Where one item of this kind that starts at a given position ends.
pub open spec fn ann_end_f(b: Seq<u8>, lim: int, cp: Seq<Option<Seq<u8>>>) -> spec_fn(int) -> Option<int> {
    |q: int| ann_end(b, q, lim, cp)
}

/// What one item of this kind is, given where it starts.
pub open spec fn ann_rel_f(b: Seq<u8>, lim: int, cp: Seq<Option<Seq<u8>>>) -> spec_fn(int, AnnotationEntry) -> bool {
    |q: int, v: AnnotationEntry| ann_rel(b, q, lim, cp, v)
}

/// Decodes `n` items of this kind laid end to end.
pub fn annotation_list(b: &[u8], pos: usize, lim: usize, cp: &Arc<Vec<CpType>>, n: usize) -> (r: Result<(Vec<AnnotationEntry>, usize), DecodeError>)
    requires
        lim <= b@.len(),
        pos <= lim,
    ensures
        match r {
            Ok((s, e)) => items_end(pos as int, n as int, ann_end_f(b@, lim as int, utf8_table(cp@))) == Some(e as int)
                && s@.len() == n && items_rel(pos as int, s@, ann_end_f(b@, lim as int, utf8_table(cp@)), ann_rel_f(b@, lim as int, utf8_table(cp@)))
                && pos <= e <= lim,
            Err(_) => items_end(pos as int, n as int, ann_end_f(b@, lim as int, utf8_table(cp@))) is None,
        },
{
    let ghost f = ann_end_f(b@, lim as int, utf8_table(cp@));
    let ghost g = ann_rel_f(b@, lim as int, utf8_table(cp@));
    let mut out: Vec<AnnotationEntry> = Vec::new();
    let mut q = pos;
    let mut i: usize = 0;
    while i < n
        invariant
            lim <= b@.len(),
            pos <= q <= lim,
            0 <= i <= n,
            out@.len() == i,
            f == ann_end_f(b@, lim as int, utf8_table(cp@)),
            g == ann_rel_f(b@, lim as int, utf8_table(cp@)),
            items_end(pos as int, i as int, f) == Some(q as int),
            items_rel(pos as int, out@, f, g),
        decreases n - i,
    {
        match annotation_entry(b, q, lim, cp) {
            Ok((v, e)) => {
                proof {
                    lemma_items_push(pos as int, out@, v, f, g);
                }
                out.push(v);
                q = e;
                i += 1;
            },
            Err(err) => {
                proof {
                    lemma_items_fail(pos as int, i as int + 1, n as int, f);
                }
                return Err(err);
            },
        }
    }
    Ok((out, q))
}

/// Where the target of a type annotation that starts at `p` ends; the target
/// type byte selects the shape.
pub open spec fn target_end(b: Seq<u8>, p: int, lim: int) -> Option<int> {
    if !fits(p, 1, lim) {
        None
    } else {
        let t = b[p];
        let n = if t == 0x00 || t == 0x01 || t == 0x16 {
            1int
        } else if t == 0x10 || t == 0x11 || t == 0x12 || t == 0x17 || t == 0x40 || t == 0x41 || (
        0x42 <= t <= 0x46) {
            2int
        } else if 0x47 <= t <= 0x4B {
            3int
        } else if 0x13 <= t <= 0x15 {
            0int
        } else {
            -1int
        };
        if n < 0 || !fits(p + 1, n, lim) {
            None
        } else if t == 0x40 || t == 0x41 {
            items_end(p + 3, be16(b, p + 1) as int, local_var_target_end_f(b, lim))
        } else {
            Some(p + 1 + n)
        }
    }
}

/// `v` is the target that the bytes at `p` encode.
pub open spec fn target_rel(b: Seq<u8>, p: int, lim: int, v: TargetInfo) -> bool {
    let t = b[p];
    if t == 0x00 || t == 0x01 {
        v == TargetInfo::TypeParameter { type_parameter_index: b[p + 1] }
    } else if t == 0x10 {
        v == TargetInfo::SuperType { supertype_index: be16(b, p + 1) }
    } else if t == 0x11 || t == 0x12 {
        v == TargetInfo::TypeParameterBound {
            type_parameter_index: b[p + 1],
            bound_index: b[p + 2],
        }
    } else if 0x13 <= t <= 0x15 {
        v == TargetInfo::Empty
    } else if t == 0x16 {
        v == TargetInfo::FormalParameter { formal_parameter_index: b[p + 1] }
    } else if t == 0x17 {
        v == TargetInfo::Throws { throws_type_index: be16(b, p + 1) }
    } else if t == 0x40 || t == 0x41 {
        v matches TargetInfo::LocalVar { table } && table@.len() == be16(b, p + 1) && items_rel(
            p + 3,
            table@,
            local_var_target_end_f(b, lim),
            local_var_target_rel_f(b, lim),
        )
    } else if t == 0x42 {
        v == TargetInfo::Catch { exception_table_index: be16(b, p + 1) }
    } else if 0x43 <= t <= 0x46 {
        v == TargetInfo::Offset { offset: be16(b, p + 1) }
    } else {
        v == TargetInfo::TypeArgument { offset: be16(b, p + 1), type_argument_index: b[p + 3] }
    }
}

/// Decodes the target of a type annotation.
pub fn target_info(b: &[u8], pos: usize, lim: usize) -> (r: Result<(TargetInfo, usize), DecodeError>)
    requires
        lim <= b@.len(),
    ensures
        match r {
            Ok((v, e)) => target_end(b@, pos as int, lim as int) == Some(e as int) && target_rel(
                b@,
                pos as int,
                lim as int,
                v,
            ) && pos < e <= lim,
            Err(_) => target_end(b@, pos as int, lim as int) is None,
        },
{
    let t = read_u8(b, pos, lim)?;
    let q = pos + 1;
    if t == 0x00 || t == 0x01 {
        let type_parameter_index = read_u8(b, q, lim)?;
        Ok((TargetInfo::TypeParameter { type_parameter_index }, q + 1))
    } else if t == 0x10 {
        let supertype_index = read_u16(b, q, lim)?;
        Ok((TargetInfo::SuperType { supertype_index }, q + 2))
    } else if t == 0x11 || t == 0x12 {
        let type_parameter_index = read_u8(b, q, lim)?;
        let bound_index = read_u8(b, q + 1, lim)?;
        Ok((TargetInfo::TypeParameterBound { type_parameter_index, bound_index }, q + 2))
    } else if 0x13 <= t && t <= 0x15 {
        Ok((TargetInfo::Empty, q))
    } else if t == 0x16 {
        let formal_parameter_index = read_u8(b, q, lim)?;
        Ok((TargetInfo::FormalParameter { formal_parameter_index }, q + 1))
    } else if t == 0x17 {
        let throws_type_index = read_u16(b, q, lim)?;
        Ok((TargetInfo::Throws { throws_type_index }, q + 2))
    } else if t == 0x40 || t == 0x41 {
        let count = read_u16(b, q, lim)?;
        let (table, e) = local_var_target_list(b, q + 2, lim, count as usize)?;
        Ok((TargetInfo::LocalVar { table }, e))
    } else if t == 0x42 {
        let exception_table_index = read_u16(b, q, lim)?;
        Ok((TargetInfo::Catch { exception_table_index }, q + 2))
    } else if 0x43 <= t && t <= 0x46 {
        let offset = read_u16(b, q, lim)?;
        Ok((TargetInfo::Offset { offset }, q + 2))
    } else if 0x47 <= t && t <= 0x4B {
        let offset = read_u16(b, q, lim)?;
        let type_argument_index = read_u8(b, q + 2, lim)?;
        Ok((TargetInfo::TypeArgument { offset, type_argument_index }, q + 3))
    } else {
        Err(DecodeError::Malformed)
    }
}

/// Where the type path that follows a target ending at `q` ends.
pub open spec fn path_end(b: Seq<u8>, q: int, lim: int) -> Option<int> {
    if fits(q, 1, lim) {
        items_end(q + 1, b[q] as int, type_path_end_f(b, lim))
    } else {
        None
    }
}

/// Where the type annotation that starts at `p` ends, if it decodes.
pub open spec fn ta_end(b: Seq<u8>, p: int, lim: int, cp: Seq<Option<Seq<u8>>>) -> Option<int> {
    match target_end(b, p, lim) {
        Some(q) => match path_end(b, q, lim) {
            Some(r) => if fits(r, 4, lim) {
                pairs_end(b, r + 4, lim, cp, be16(b, r + 2) as int)
            } else {
                None
            },
            None => None,
        },
        None => None,
    }
}

/// `v` is the type annotation that the bytes at `p` encode.
pub open spec fn ta_rel(b: Seq<u8>, p: int, lim: int, cp: Seq<Option<Seq<u8>>>, v: TypeAnnotation) -> bool {
    &&& target_rel(b, p, lim, v.target_info)
    &&& target_end(b, p, lim) matches Some(q)
    &&& v.target_path@.len() == b[q]
    &&& items_rel(q + 1, v.target_path@, type_path_end_f(b, lim), type_path_rel_f(b, lim))
    &&& path_end(b, q, lim) matches Some(r)
    &&& v.type_index == be16(b, r)
    &&& v.pairs@.len() == be16(b, r + 2)
    &&& pairs_rel(b, r + 4, lim, cp, v.pairs@)
}

/// Decodes one type annotation: a target, a type path, then the type index and
/// pairs of a plain annotation.
pub fn type_annotation(b: &[u8], pos: usize, lim: usize, cp: &Arc<Vec<CpType>>) -> (r: Result<(TypeAnnotation, usize), DecodeError>)
    requires
        lim <= b@.len(),
    ensures
        match r {
            Ok((v, e)) => ta_end(b@, pos as int, lim as int, utf8_table(cp@)) == Some(e as int) && ta_rel(
                b@,
                pos as int,
                lim as int,
                utf8_table(cp@),
                v,
            ) && pos < e <= lim,
            Err(_) => ta_end(b@, pos as int, lim as int, utf8_table(cp@)) is None,
        },
{
    let (target_info, q) = target_info(b, pos, lim)?;
    let path_count = read_u8(b, q, lim)?;
    let (target_path, r) = type_path_list(b, q + 1, lim, path_count as usize)?;
    let type_index = read_u16(b, r, lim)?;
    let pair_count = read_u16(b, r + 2, lim)?;
    let (pairs, e) = element_value_pairs(b, r + 4, lim, cp, pair_count as usize)?;
    Ok((TypeAnnotation { target_info, target_path, type_index, pairs }, e))
}

/// Where one item of this kind that starts at a given position ends.
pub open spec fn ta_end_f(b: Seq<u8>, lim: int, cp: Seq<Option<Seq<u8>>>) -> spec_fn(int) -> Option<int> {
    |q: int| ta_end(b, q, lim, cp)
}

/// What one item of this kind is, given where it starts.
pub open spec fn ta_rel_f(b: Seq<u8>, lim: int, cp: Seq<Option<Seq<u8>>>) -> spec_fn(int, TypeAnnotation) -> bool {
    |q: int, v: TypeAnnotation| ta_rel(b, q, lim, cp, v)
}

/// Decodes `n` items of this kind laid end to end.
pub fn type_annotation_list(b: &[u8], pos: usize, lim: usize, cp: &Arc<Vec<CpType>>, n: usize) -> (r: Result<(Vec<TypeAnnotation>, usize), DecodeError>)
    requires
        lim <= b@.len(),
        pos <= lim,
    ensures
        match r {
            Ok((s, e)) => items_end(pos as int, n as int, ta_end_f(b@, lim as int, utf8_table(cp@))) == Some(e as int)
                && s@.len() == n && items_rel(pos as int, s@, ta_end_f(b@, lim as int, utf8_table(cp@)), ta_rel_f(b@, lim as int, utf8_table(cp@)))
                && pos <= e <= lim,
            Err(_) => items_end(pos as int, n as int, ta_end_f(b@, lim as int, utf8_table(cp@))) is None,
        },
{
    let ghost f = ta_end_f(b@, lim as int, utf8_table(cp@));
    let ghost g = ta_rel_f(b@, lim as int, utf8_table(cp@));
    let mut out: Vec<TypeAnnotation> = Vec::new();
    let mut q = pos;
    let mut i: usize = 0;
    while i < n
        invariant
            lim <= b@.len(),
            pos <= q <= lim,
            0 <= i <= n,
            out@.len() == i,
            f == ta_end_f(b@, lim as int, utf8_table(cp@)),
            g == ta_rel_f(b@, lim as int, utf8_table(cp@)),
            items_end(pos as int, i as int, f) == Some(q as int),
            items_rel(pos as int, out@, f, g),
        decreases n - i,
    {
        match type_annotation(b, q, lim, cp) {
            Ok((v, e)) => {
                proof {
                    lemma_items_push(pos as int, out@, v, f, g);
                }
                out.push(v);
                q = e;
                i += 1;
            },
            Err(err) => {
                proof {
                    lemma_items_fail(pos as int, i as int + 1, n as int, f);
                }
                return Err(err);
            },
        }
    }
    Ok((out, q))
}

} // verus!

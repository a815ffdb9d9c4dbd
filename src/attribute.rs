//! Attributes: a pool index that names the kind, a 32-bit length, and a body
//! of exactly that many bytes. A body is decoded inside its own window, so the
//! cursor always moves past the declared length, whatever the kind.
//!
//! In the spec functions below, `cp` is the pool seen as its name table
//! (`utf8_table`): the only part of the pool that decoding looks into.
use vstd::prelude::*;
use std::sync::Arc;
use crate::bytes::{DecodeError, fits, be16, be32, read_u8, read_u16, read_u32, copy_range};
use crate::items::{items_end, items_rel, lemma_items_fail, lemma_items_push};
use crate::constant_pool::{Type as CpType, name_at, utf8_table, get_utf8};
use crate::attributes::{BootstrapMethod, Code, Tag, Type, tag_of_name};
use crate::records::{
    code_exception_end_f, code_exception_list, code_exception_rel_f, index_end_f, index_list,
    index_rel_f, inner_class_end_f, inner_class_list, inner_class_rel_f, line_number_end_f,
    line_number_list, line_number_rel_f, local_variable_end_f, local_variable_list,
    local_variable_rel_f, method_parameter_end_f, method_parameter_list, method_parameter_rel_f,
};
use crate::stack_map::{frame_end_f, frame_rel_f, frame_list};
use crate::annotation::{
    ann_end_f, ann_rel_f, annotation_list, element_value, ev_end, ev_rel, ta_end_f, ta_rel_f,
    type_annotation_list,
};

verus! {

pub open spec fn bm_end(b: Seq<u8>, p: int, lim: int) -> Option<int> {
    if fits(p, 4, lim) {
        items_end(p + 4, be16(b, p + 2) as int, index_end_f(b, lim))
    } else {
        None
    }
}

pub open spec fn bm_rel(b: Seq<u8>, p: int, lim: int, v: BootstrapMethod) -> bool {
    v.method_ref == be16(b, p) && v.args@.len() == be16(b, p + 2) && items_rel(
        p + 4,
        v.args@,
        index_end_f(b, lim),
        index_rel_f(b, lim),
    )
}

/// Decodes one bootstrap method: a method handle index and its argument indices.
pub fn bootstrap_method(b: &[u8], pos: usize, lim: usize) -> (r: Result<(BootstrapMethod, usize), DecodeError>)
    requires
        lim <= b@.len(),
    ensures
        match r {
            Ok((v, e)) => bm_end(b@, pos as int, lim as int) == Some(e as int) && bm_rel(
                b@,
                pos as int,
                lim as int,
                v,
            ) && pos < e <= lim,
            Err(_) => bm_end(b@, pos as int, lim as int) is None,
        },
{
    let method_ref = read_u16(b, pos, lim)?;
    let count = read_u16(b, pos + 2, lim)?;
    let (args, e) = index_list(b, pos + 4, lim, count as usize)?;
    Ok((BootstrapMethod { method_ref, args }, e))
}

/// Where one item of this kind that starts at a given position ends.
pub open spec fn bm_end_f(b: Seq<u8>, lim: int) -> spec_fn(int) -> Option<int> {
    |q: int| bm_end(b, q, lim)
}

/// What one item of this kind is, given where it starts.
pub open spec fn bm_rel_f(b: Seq<u8>, lim: int) -> spec_fn(int, BootstrapMethod) -> bool {
    |q: int, v: BootstrapMethod| bm_rel(b, q, lim, v)
}

/// Decodes `n` items of this kind laid end to end.
pub fn bootstrap_method_list(b: &[u8], pos: usize, lim: usize, n: usize) -> (r: Result<(Vec<BootstrapMethod>, usize), DecodeError>)
    requires
        lim <= b@.len(),
        pos <= lim,
    ensures
        match r {
            Ok((s, e)) => items_end(pos as int, n as int, bm_end_f(b@, lim as int)) == Some(e as int)
                && s@.len() == n && items_rel(pos as int, s@, bm_end_f(b@, lim as int), bm_rel_f(b@, lim as int))
                && pos <= e <= lim,
            Err(_) => items_end(pos as int, n as int, bm_end_f(b@, lim as int)) is None,
        },
{
    let ghost f = bm_end_f(b@, lim as int);
    let ghost g = bm_rel_f(b@, lim as int);
    let mut out: Vec<BootstrapMethod> = Vec::new();
    let mut q = pos;
    let mut i: usize = 0;
    while i < n
        invariant
            lim <= b@.len(),
            pos <= q <= lim,
            0 <= i <= n,
            out@.len() == i,
            f == bm_end_f(b@, lim as int),
            g == bm_rel_f(b@, lim as int),
            items_end(pos as int, i as int, f) == Some(q as int),
            items_rel(pos as int, out@, f, g),
        decreases n - i,
    {
        match bootstrap_method(b, q, lim) {
            Ok((v, e)) => {
                proof {
                    lemma_items_push(pos as int, out@, v, f, g);
                }
                out.push(v);
                q = e;
                i += 1;
            },
            Err(err) => {
                proof {
                    lemma_items_fail(pos as int, i as int + 1, n as int, f);
                }
                return Err(err);
            },
        }
    }
    Ok((out, q))
}

/// Where the body of a kind other than `Code`, decoded in the window
/// `[s, e)`, stops reading; `None` where it does not decode.
pub open spec fn leaf_body_end(b: Seq<u8>, s: int, e: int, cp: Seq<Option<Seq<u8>>>, t: Tag) -> Option<int> {
    match t {
        Tag::ConstantValue | Tag::Signature | Tag::SourceFile => if fits(s, 2, e) {
            Some(s + 2)
        } else {
            None
        },
        Tag::StackMapTable => if fits(s, 2, e) { items_end(s + 2, be16(b, s) as int, frame_end_f(b, e)) } else { None },
        Tag::Exceptions => if fits(s, 2, e) { items_end(s + 2, be16(b, s) as int, index_end_f(b, e)) } else { None },
        Tag::InnerClasses => if fits(s, 2, e) { items_end(s + 2, be16(b, s) as int, inner_class_end_f(b, e)) } else { None },
        Tag::EnclosingMethod => if fits(s, 4, e) {
            Some(s + 4)
        } else {
            None
        },
        Tag::LineNumberTable => if fits(s, 2, e) { items_end(s + 2, be16(b, s) as int, line_number_end_f(b, e)) } else { None },
        Tag::LocalVariableTable | Tag::LocalVariableTypeTable => if fits(s, 2, e) { items_end(s + 2, be16(b, s) as int, local_variable_end_f(b, e)) } else { None },
        Tag::RuntimeVisibleAnnotations | Tag::RuntimeInvisibleAnnotations
        | Tag::RuntimeVisibleParameterAnnotations | Tag::RuntimeInvisibleParameterAnnotations => if fits(s, 2, e) { items_end(s + 2, be16(b, s) as int, ann_end_f(b, e, cp)) } else { None },
        Tag::RuntimeVisibleTypeAnnotations | Tag::RuntimeInvisibleTypeAnnotations => if fits(s, 2, e) { items_end(s + 2, be16(b, s) as int, ta_end_f(b, e, cp)) } else { None },
        Tag::AnnotationDefault => ev_end(b, s, e, cp),
        Tag::BootstrapMethods => if fits(s, 2, e) { items_end(s + 2, be16(b, s) as int, bm_end_f(b, e)) } else { None },
        Tag::MethodParameters => if fits(s, 1, e) { items_end(s + 1, b[s] as int, method_parameter_end_f(b, e)) } else { None },
        Tag::Code => None,
        _ => Some(e),
    }
}

/// `v` is the attribute of kind `t` (other than `Code`) whose body is the
/// window `[s, e)`.
pub open spec fn leaf_body_rel(b: Seq<u8>, s: int, e: int, cp: Seq<Option<Seq<u8>>>, t: Tag, v: Type) -> bool {
    match t {
        Tag::ConstantValue => v == Type::ConstantValue { constant_value_index: be16(b, s) },
        Tag::StackMapTable => v matches Type::StackMapTable { entries } && entries@.len() == be16(b, s) && items_rel(s + 2, entries@, frame_end_f(b, e), frame_rel_f(b, e)),
        Tag::Exceptions => v matches Type::Exceptions { exceptions } && exceptions@.len() == be16(b, s) && items_rel(s + 2, exceptions@, index_end_f(b, e), index_rel_f(b, e)),
        Tag::InnerClasses => v matches Type::InnerClasses { classes } && classes@.len() == be16(b, s) && items_rel(s + 2, classes@, inner_class_end_f(b, e), inner_class_rel_f(b, e)),
        Tag::EnclosingMethod => v matches Type::EnclosingMethod { em } && em.class_index == be16(b, s)
            && em.method_index == be16(b, s + 2),
        Tag::Synthetic => v == Type::Synthetic,
        Tag::Signature => v == Type::Signature { signature_index: be16(b, s) },
        Tag::SourceFile => v == Type::SourceFile { source_file_index: be16(b, s) },
        Tag::SourceDebugExtension => v matches Type::SourceDebugExtension { debug_extension }
            && debug_extension@ == b.subrange(s, e),
        Tag::LineNumberTable => v matches Type::LineNumberTable { tables } && tables@.len() == be16(b, s) && items_rel(s + 2, tables@, line_number_end_f(b, e), line_number_rel_f(b, e)),
        Tag::LocalVariableTable => v matches Type::LocalVariableTable { tables } && tables@.len() == be16(b, s) && items_rel(s + 2, tables@, local_variable_end_f(b, e), local_variable_rel_f(b, e)),
        Tag::LocalVariableTypeTable => v matches Type::LocalVariableTypeTable { tables } && tables@.len() == be16(b, s) && items_rel(s + 2, tables@, local_variable_end_f(b, e), local_variable_rel_f(b, e)),
        Tag::Deprecated => v == Type::Deprecated,
        Tag::RuntimeVisibleAnnotations => v matches Type::RuntimeVisibleAnnotations { raw, annotations } && raw@ == b.subrange(s, e) && annotations@.len() == be16(b, s) && items_rel(s + 2, annotations@, ann_end_f(b, e, cp), ann_rel_f(b, e, cp)),
        Tag::RuntimeInvisibleAnnotations => v matches Type::RuntimeInvisibleAnnotations { raw, annotations } && raw@ == b.subrange(s, e) && annotations@.len() == be16(b, s) && items_rel(s + 2, annotations@, ann_end_f(b, e, cp), ann_rel_f(b, e, cp)),
        Tag::RuntimeVisibleParameterAnnotations => v matches Type::RuntimeVisibleParameterAnnotations { raw, annotations } && raw@ == b.subrange(s, e) && annotations@.len() == be16(b, s) && items_rel(s + 2, annotations@, ann_end_f(b, e, cp), ann_rel_f(b, e, cp)),
        Tag::RuntimeInvisibleParameterAnnotations => v matches Type::RuntimeInvisibleParameterAnnotations { raw, annotations } && raw@ == b.subrange(s, e) && annotations@.len() == be16(b, s) && items_rel(s + 2, annotations@, ann_end_f(b, e, cp), ann_rel_f(b, e, cp)),
        Tag::RuntimeVisibleTypeAnnotations => v matches Type::RuntimeVisibleTypeAnnotations { raw, annotations } && raw@ == b.subrange(s, e) && annotations@.len() == be16(b, s) && items_rel(s + 2, annotations@, ta_end_f(b, e, cp), ta_rel_f(b, e, cp)),
        Tag::RuntimeInvisibleTypeAnnotations => v matches Type::RuntimeInvisibleTypeAnnotations { raw, annotations } && raw@ == b.subrange(s, e) && annotations@.len() == be16(b, s) && items_rel(s + 2, annotations@, ta_end_f(b, e, cp), ta_rel_f(b, e, cp)),
        Tag::AnnotationDefault => v matches Type::AnnotationDefault { raw, default_value } && raw@ == b.subrange(s, e)
            && ev_rel(b, s, e, cp, default_value),
        Tag::BootstrapMethods => v matches Type::BootstrapMethods { n, methods } && n == be16(b, s) && methods@.len() == be16(b, s) && items_rel(s + 2, methods@, bm_end_f(b, e), bm_rel_f(b, e)),
        Tag::MethodParameters => v matches Type::MethodParameters { parameters } && parameters@.len() == b[s] && items_rel(s + 1, parameters@, method_parameter_end_f(b, e), method_parameter_rel_f(b, e)),
        Tag::Code => false,
        Tag::Unknown => v == Type::Unknown,
    }
}

/// Decodes the body of a kind other than `Code` in the window `[s, e)`.
fn leaf_body(b: &[u8], s: usize, e: usize, cp: &Arc<Vec<CpType>>, t: Tag) -> (r: Result<Type, DecodeError>)
    requires
        e <= b@.len(),
        s <= e,
    ensures
        match r {
            Ok(v) => leaf_body_end(b@, s as int, e as int, utf8_table(cp@), t) is Some && leaf_body_rel(
                b@,
                s as int,
                e as int,
                utf8_table(cp@),
                t,
                v,
            ),
            Err(_) => leaf_body_end(b@, s as int, e as int, utf8_table(cp@), t) is None,
        },
{
    match t {
        Tag::ConstantValue => {
            let constant_value_index = read_u16(b, s, e)?;
            Ok(Type::ConstantValue { constant_value_index })
        },
        Tag::StackMapTable => {
            let n = read_u16(b, s, e)?;
            let (entries, _) = frame_list(b, s + 2, e, n as usize)?;
            Ok(Type::StackMapTable { entries })
        },
        Tag::Exceptions => {
            let n = read_u16(b, s, e)?;
            let (exceptions, _) = index_list(b, s + 2, e, n as usize)?;
            Ok(Type::Exceptions { exceptions })
        },
        Tag::InnerClasses => {
            let n = read_u16(b, s, e)?;
            let (classes, _) = inner_class_list(b, s + 2, e, n as usize)?;
            Ok(Type::InnerClasses { classes })
        },
        Tag::EnclosingMethod => {
            let class_index = read_u16(b, s, e)?;
            let method_index = read_u16(b, s + 2, e)?;
            Ok(Type::EnclosingMethod { em: crate::attributes::EnclosingMethod { class_index, method_index } })
        },
        Tag::Synthetic => Ok(Type::Synthetic),
        Tag::Signature => {
            let signature_index = read_u16(b, s, e)?;
            Ok(Type::Signature { signature_index })
        },
        Tag::SourceFile => {
            let source_file_index = read_u16(b, s, e)?;
            Ok(Type::SourceFile { source_file_index })
        },
        Tag::SourceDebugExtension => {
            Ok(Type::SourceDebugExtension { debug_extension: Arc::new(copy_range(b, s, e)) })
        },
        Tag::LineNumberTable => {
            let n = read_u16(b, s, e)?;
            let (tables, _) = line_number_list(b, s + 2, e, n as usize)?;
            Ok(Type::LineNumberTable { tables })
        },
        Tag::LocalVariableTable => {
            let n = read_u16(b, s, e)?;
            let (tables, _) = local_variable_list(b, s + 2, e, n as usize)?;
            Ok(Type::LocalVariableTable { tables })
        },
        Tag::LocalVariableTypeTable => {
            let n = read_u16(b, s, e)?;
            let (tables, _) = local_variable_list(b, s + 2, e, n as usize)?;
            Ok(Type::LocalVariableTypeTable { tables })
        },
        Tag::Deprecated => Ok(Type::Deprecated),
        Tag::RuntimeVisibleAnnotations => {
            let n = read_u16(b, s, e)?;
            let (annotations, _) = annotation_list(b, s + 2, e, cp, n as usize)?;
            Ok(Type::RuntimeVisibleAnnotations { raw: Arc::new(copy_range(b, s, e)), annotations })
        },
        Tag::RuntimeInvisibleAnnotations => {
            let n = read_u16(b, s, e)?;
            let (annotations, _) = annotation_list(b, s + 2, e, cp, n as usize)?;
            Ok(Type::RuntimeInvisibleAnnotations { raw: Arc::new(copy_range(b, s, e)), annotations })
        },
        Tag::RuntimeVisibleParameterAnnotations => {
            let n = read_u16(b, s, e)?;
            let (annotations, _) = annotation_list(b, s + 2, e, cp, n as usize)?;
            Ok(Type::RuntimeVisibleParameterAnnotations { raw: Arc::new(copy_range(b, s, e)), annotations })
        },
        Tag::RuntimeInvisibleParameterAnnotations => {
            let n = read_u16(b, s, e)?;
            let (annotations, _) = annotation_list(b, s + 2, e, cp, n as usize)?;
            Ok(Type::RuntimeInvisibleParameterAnnotations { raw: Arc::new(copy_range(b, s, e)), annotations })
        },
        Tag::RuntimeVisibleTypeAnnotations => {
            let n = read_u16(b, s, e)?;
            let (annotations, _) = type_annotation_list(b, s + 2, e, cp, n as usize)?;
            Ok(Type::RuntimeVisibleTypeAnnotations { raw: Arc::new(copy_range(b, s, e)), annotations })
        },
        Tag::RuntimeInvisibleTypeAnnotations => {
            let n = read_u16(b, s, e)?;
            let (annotations, _) = type_annotation_list(b, s + 2, e, cp, n as usize)?;
            Ok(Type::RuntimeInvisibleTypeAnnotations { raw: Arc::new(copy_range(b, s, e)), annotations })
        },
        Tag::AnnotationDefault => {
            let (default_value, _) = element_value(b, s, e, cp)?;
            Ok(Type::AnnotationDefault { raw: Arc::new(copy_range(b, s, e)), default_value })
        },
        Tag::BootstrapMethods => {
            let n = read_u16(b, s, e)?;
            let (methods, _) = bootstrap_method_list(b, s + 2, e, n as usize)?;
            Ok(Type::BootstrapMethods { n, methods })
        },
        Tag::MethodParameters => {
            let n = read_u8(b, s, e)?;
            let (parameters, _) = method_parameter_list(b, s + 1, e, n as usize)?;
            Ok(Type::MethodParameters { parameters })
        },
        Tag::Code => Err(DecodeError::Malformed),
        Tag::Unknown => Ok(Type::Unknown),
    }
}

/// Where the attribute that starts at `p` ends: six header bytes, then
/// exactly the declared length. Its name must resolve to a `Utf8` entry, and
/// its body must decode inside its window.
pub open spec fn attr_end(b: Seq<u8>, p: int, lim: int, cp: Seq<Option<Seq<u8>>>) -> Option<int>
    decreases lim - p, 0int,
{
    if fits(p, 6, lim) && name_at(cp, be16(b, p) as int) is Some && fits(
        p + 6,
        be32(b, p + 2) as int,
        lim,
    ) {
        let s = p + 6;
        let e = s + be32(b, p + 2);
        if body_ok(b, s, e, cp, tag_of_name(name_at(cp, be16(b, p) as int).unwrap())) {
            Some(e)
        } else {
            None
        }
    } else {
        None
    }
}

/// The body of kind `t` decodes inside the window `[s, e)`.
pub open spec fn body_ok(b: Seq<u8>, s: int, e: int, cp: Seq<Option<Seq<u8>>>, t: Tag) -> bool
    decreases e - s, 1int,
{
    if t == Tag::Code {
        code_end(b, s, e, cp) is Some
    } else {
        leaf_body_end(b, s, e, cp, t) is Some
    }
}

/// Where the `Code` body in the window `[s, e)` stops reading.
pub open spec fn code_end(b: Seq<u8>, s: int, e: int, cp: Seq<Option<Seq<u8>>>) -> Option<int>
    decreases e - s, 0int,
{
    if fits(s, 8, e) && fits(s + 8, be32(b, s + 4) as int, e) && fits(
        s + 8 + be32(b, s + 4),
        2,
        e,
    ) {
        let c = s + 8 + be32(b, s + 4);
        match items_end(c + 2, be16(b, c) as int, code_exception_end_f(b, e)) {
            Some(x) => if c + 2 <= x && fits(x, 2, e) {
                attrs_end(b, x + 2, e, cp, be16(b, x) as int)
            } else {
                None
            },
            None => None,
        }
    } else {
        None
    }
}

/// Where `n` attributes laid end to end from `p` end.
pub open spec fn attrs_end(b: Seq<u8>, p: int, lim: int, cp: Seq<Option<Seq<u8>>>, n: int) -> Option<int>
    decreases lim - p, n,
{
    if n <= 0 {
        Some(p)
    } else {
        match attrs_end(b, p, lim, cp, n - 1) {
            Some(q) => if p <= q <= lim {
                attr_end(b, q, lim, cp)
            } else {
                None
            },
            None => None,
        }
    }
}

/// `v` is the attribute that the bytes at `p` encode.
pub open spec fn attr_rel(b: Seq<u8>, p: int, lim: int, cp: Seq<Option<Seq<u8>>>, v: Type) -> bool
    decreases lim - p, 0int,
{
    if fits(p, 6, lim) && name_at(cp, be16(b, p) as int) is Some && fits(
        p + 6,
        be32(b, p + 2) as int,
        lim,
    ) {
        let s = p + 6;
        let e = s + be32(b, p + 2);
        let t = tag_of_name(name_at(cp, be16(b, p) as int).unwrap());
        if t == Tag::Code {
            match v {
                Type::Code(c) => code_rel(b, s, e, cp, c),
                _ => false,
            }
        } else {
            leaf_body_rel(b, s, e, cp, t, v)
        }
    } else {
        false
    }
}

/// `c` is the `Code` body in the window `[s, e)`.
pub open spec fn code_rel(b: Seq<u8>, s: int, e: int, cp: Seq<Option<Seq<u8>>>, c: Code) -> bool
    decreases e - s, 0int,
{
    if fits(s, 8, e) && fits(s + 8, be32(b, s + 4) as int, e) && fits(
        s + 8 + be32(b, s + 4),
        2,
        e,
    ) {
        let c0 = s + 8 + be32(b, s + 4);
        &&& c.max_stack == be16(b, s)
        &&& c.max_locals == be16(b, s + 2)
        &&& c.code@ == b.subrange(s + 8, c0)
        &&& c.exceptions@.len() == be16(b, c0)
        &&& items_rel(c0 + 2, c.exceptions@, code_exception_end_f(b, e), code_exception_rel_f(b, e))
        &&& match items_end(c0 + 2, be16(b, c0) as int, code_exception_end_f(b, e)) {
            Some(x) => c0 + 2 <= x && fits(x, 2, e) && c.attrs@.len() == be16(b, x) && attrs_rel(
                b,
                x + 2,
                e,
                cp,
                c.attrs@,
            ),
            None => false,
        }
    } else {
        false
    }
}

/// `s` are the attributes laid end to end from `p`.
pub open spec fn attrs_rel(b: Seq<u8>, p: int, lim: int, cp: Seq<Option<Seq<u8>>>, s: Seq<Type>) -> bool
    decreases lim - p, 1int,
{
    forall|k: int|
        0 <= k < s.len() ==> (#[trigger] attrs_end(b, p, lim, cp, k) matches Some(q) && p <= q <= lim
            && attr_rel(b, q, lim, cp, s[k]))
}

proof fn lemma_attrs_fail(b: Seq<u8>, p: int, lim: int, cp: Seq<Option<Seq<u8>>>, i: int, n: int)
    requires
        0 <= i <= n,
        attrs_end(b, p, lim, cp, i) is None,
    ensures
        attrs_end(b, p, lim, cp, n) is None,
    decreases n - i,
{
    if i < n {
        lemma_attrs_fail(b, p, lim, cp, i, n - 1);
    }
}

/// Decodes one attribute. Its body is read inside a window of exactly the
/// declared length, and the cursor moves past all of it: a kind it does not
/// know becomes `Unknown`.
pub fn attribute(b: &[u8], pos: usize, lim: usize, cp: &Arc<Vec<CpType>>) -> (r: Result<(Type, usize), DecodeError>)
    requires
        lim <= b@.len(),
    ensures
        match r {
            Ok((v, e)) => attr_end(b@, pos as int, lim as int, utf8_table(cp@)) == Some(e as int) && attr_rel(
                b@,
                pos as int,
                lim as int,
                utf8_table(cp@),
                v,
            ) && e == pos + 6 + be32(b@, pos + 2) && e <= lim,
            Err(_) => attr_end(b@, pos as int, lim as int, utf8_table(cp@)) is None,
        },
    decreases lim - pos, 0int,
{
    let name_index = read_u16(b, pos, lim)?;
    let len = read_u32(b, pos + 2, lim)?;
    let name = match get_utf8(cp, name_index as usize) {
        Some(name) => name,
        None => return Err(DecodeError::Malformed),
    };
    let raw_name: &Vec<u8> = &*name;
    let tag = Tag::from(raw_name.as_slice());
    let s = pos + 6;
    if len as usize > lim - s {
        return Err(DecodeError::Malformed);
    }
    let e = s + len as usize;
    if tag == Tag::Code {
        let c = code(b, s, e, cp)?;
        Ok((Type::Code(c), e))
    } else {
        let v = leaf_body(b, s, e, cp, tag)?;
        Ok((v, e))
    }
}

/// Decodes a `Code` body in the window `[s, e)`: stack and locals limits, the
/// bytecode as it stands, the exception table, and nested attributes.
fn code(b: &[u8], s: usize, e: usize, cp: &Arc<Vec<CpType>>) -> (r: Result<Code, DecodeError>)
    requires
        e <= b@.len(),
        s <= e,
    ensures
        match r {
            Ok(c) => code_end(b@, s as int, e as int, utf8_table(cp@)) is Some && code_rel(
                b@,
                s as int,
                e as int,
                utf8_table(cp@),
                c,
            ),
            Err(_) => code_end(b@, s as int, e as int, utf8_table(cp@)) is None,
        },
    decreases e - s, 0int,
{
    let max_stack = read_u16(b, s, e)?;
    let max_locals = read_u16(b, s + 2, e)?;
    let len = read_u32(b, s + 4, e)?;
    if len as usize > e - (s + 8) {
        return Err(DecodeError::Malformed);
    }
    let c0 = s + 8 + len as usize;
    let code = copy_range(b, s + 8, c0);
    let n = read_u16(b, c0, e)?;
    let (exceptions, x) = code_exception_list(b, c0 + 2, e, n as usize)?;
    let m = read_u16(b, x, e)?;
    let (attrs, _) = attribute_list(b, x + 2, e, cp, m as usize)?;
    Ok(Code { max_stack, max_locals, code: Arc::new(code), exceptions, attrs })
}

/// Decodes `n` attributes laid end to end.
pub fn attribute_list(b: &[u8], pos: usize, lim: usize, cp: &Arc<Vec<CpType>>, n: usize) -> (r: Result<(Vec<Type>, usize), DecodeError>)
    requires
        lim <= b@.len(),
        pos <= lim,
    ensures
        match r {
            Ok((s, e)) => attrs_end(b@, pos as int, lim as int, utf8_table(cp@), n as int) == Some(e as int)
                && s@.len() == n && attrs_rel(b@, pos as int, lim as int, utf8_table(cp@), s@) && pos <= e <= lim,
            Err(_) => attrs_end(b@, pos as int, lim as int, utf8_table(cp@), n as int) is None,
        },
    decreases lim - pos, 1int,
{
    let mut out: Vec<Type> = Vec::new();
    let mut q = pos;
    let mut i: usize = 0;
    while i < n
        invariant
            lim <= b@.len(),
            pos <= q <= lim,
            0 <= i <= n,
            out@.len() == i,
            attrs_end(b@, pos as int, lim as int, utf8_table(cp@), i as int) == Some(q as int),
            attrs_rel(b@, pos as int, lim as int, utf8_table(cp@), out@),
        decreases n - i,
    {
        match attribute(b, q, lim, cp) {
            Ok((v, e)) => {
                let ghost old_out = out@;
                out.push(v);
                assert forall|k: int| 0 <= k < out@.len() implies (#[trigger] attrs_end(
                    b@,
                    pos as int,
                    lim as int,
                    utf8_table(cp@),
                    k,
                ) matches Some(r) && pos <= r <= lim && attr_rel(b@, r, lim as int, utf8_table(cp@), out@[k])) by {
                    if k < i {
                        assert(out@[k] == old_out[k]);
                    }
                }
                q = e;
                i += 1;
            },
            Err(err) => {
                proof {
                    lemma_attrs_fail(b@, pos as int, lim as int, utf8_table(cp@), i as int + 1, n as int);
                }
                return Err(err);
            },
        }
    }
    Ok((out, q))
}

/// Where an attribute table (a 16-bit count, then the attributes) that starts
/// at `p` ends.
pub open spec fn attr_table_end(b: Seq<u8>, p: int, lim: int, cp: Seq<Option<Seq<u8>>>) -> Option<int> {
    if fits(p, 2, lim) {
        attrs_end(b, p + 2, lim, cp, be16(b, p) as int)
    } else {
        None
    }
}

/// `s` is the attribute table that starts at `p`.
pub open spec fn attr_table_rel(b: Seq<u8>, p: int, lim: int, cp: Seq<Option<Seq<u8>>>, s: Seq<Type>) -> bool {
    s.len() == be16(b, p) && attrs_rel(b, p + 2, lim, cp, s)
}

/// Decodes an attribute table: a 16-bit count, then that many attributes.
pub fn attribute_table(b: &[u8], pos: usize, lim: usize, cp: &Arc<Vec<CpType>>) -> (r: Result<(Vec<Type>, usize), DecodeError>)
    requires
        lim <= b@.len(),
    ensures
        match r {
            Ok((s, e)) => attr_table_end(b@, pos as int, lim as int, utf8_table(cp@)) == Some(e as int)
                && attr_table_rel(b@, pos as int, lim as int, utf8_table(cp@), s@) && pos < e <= lim,
            Err(_) => attr_table_end(b@, pos as int, lim as int, utf8_table(cp@)) is None,
        },
{
    let n = read_u16(b, pos, lim)?;
    attribute_list(b, pos + 2, lim, cp, n as usize)
}

} // verus!

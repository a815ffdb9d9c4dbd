//! Fixed-size records that attribute bodies hold in counted runs.
use vstd::prelude::*;
use crate::bytes::{DecodeError, fits, be16, read_u8, read_u16};
use crate::items::{items_end, items_rel, lemma_items_fail, lemma_items_push};
use crate::attributes::{
    CodeException, InnerClass, LineNumber, LocalVarTargetTable, LocalVariable, MethodParameter,
    TypePath,
};

verus! {

/// The record that the bytes at `p` encode, and where it ends.
pub open spec fn index_spec(b: Seq<u8>, p: int, lim: int) -> Option<(u16, int)> {
    if fits(p, 2, lim) {
        Some((be16(b, p), p + 2))
    } else {
        None
    }
}

/// A 16-bit pool index.
pub fn index(b: &[u8], pos: usize, lim: usize) -> (r: Result<(u16, usize), DecodeError>)
    requires
        lim <= b@.len(),
    ensures
        match r {
            Ok((v, e)) => index_spec(b@, pos as int, lim as int) == Some((v, e as int)) && pos < e <= lim,
            Err(_) => index_spec(b@, pos as int, lim as int) is None,
        },
{
    let v = read_u16(b, pos, lim)?;
    Ok((v, pos + 2))
}

/// Where one item of this kind that starts at a given position ends.
pub open spec fn index_end_f(b: Seq<u8>, lim: int) -> spec_fn(int) -> Option<int> {
    |q: int| match index_spec(b, q, lim) { Some((_, e)) => Some(e), None => None }
}

/// What one item of this kind is, given where it starts.
pub open spec fn index_rel_f(b: Seq<u8>, lim: int) -> spec_fn(int, u16) -> bool {
    |q: int, v: u16| match index_spec(b, q, lim) { Some((w, _)) => w == v, None => false }
}

/// Decodes `n` items of this kind laid end to end.
pub fn index_list(b: &[u8], pos: usize, lim: usize, n: usize) -> (r: Result<(Vec<u16>, usize), DecodeError>)
    requires
        lim <= b@.len(),
        pos <= lim,
    ensures
        match r {
            Ok((s, e)) => items_end(pos as int, n as int, index_end_f(b@, lim as int)) == Some(e as int)
                && s@.len() == n && items_rel(pos as int, s@, index_end_f(b@, lim as int), index_rel_f(b@, lim as int))
                && pos <= e <= lim,
            Err(_) => items_end(pos as int, n as int, index_end_f(b@, lim as int)) is None,
        },
{
    let ghost f = index_end_f(b@, lim as int);
    let ghost g = index_rel_f(b@, lim as int);
    let mut out: Vec<u16> = Vec::new();
    let mut q = pos;
    let mut i: usize = 0;
    while i < n
        invariant
            lim <= b@.len(),
            pos <= q <= lim,
            0 <= i <= n,
            out@.len() == i,
            f == index_end_f(b@, lim as int),
            g == index_rel_f(b@, lim as int),
            items_end(pos as int, i as int, f) == Some(q as int),
            items_rel(pos as int, out@, f, g),
        decreases n - i,
    {
        match index(b, q, lim) {
            Ok((v, e)) => {
                proof {
                    lemma_items_push(pos as int, out@, v, f, g);
                }
                out.push(v);
                q = e;
                i += 1;
            },
            Err(err) => {
                proof {
                    lemma_items_fail(pos as int, i as int + 1, n as int, f);
                }
                return Err(err);
            },
        }
    }
    Ok((out, q))
}

/// The record that the bytes at `p` encode, and where it ends.
pub open spec fn inner_class_spec(b: Seq<u8>, p: int, lim: int) -> Option<(InnerClass, int)> {
    if fits(p, 8, lim) {
        Some((InnerClass { inner_class_info_index: be16(b, p + 0), outer_class_info_index: be16(b, p + 2), inner_name_index: be16(b, p + 4), inner_class_access_flags: be16(b, p + 6) }, p + 8))
    } else {
        None
    }
}

pub fn inner_class(b: &[u8], pos: usize, lim: usize) -> (r: Result<(InnerClass, usize), DecodeError>)
    requires
        lim <= b@.len(),
    ensures
        match r {
            Ok((v, e)) => inner_class_spec(b@, pos as int, lim as int) == Some((v, e as int)) && pos < e <= lim,
            Err(_) => inner_class_spec(b@, pos as int, lim as int) is None,
        },
{
    let inner_class_info_index = read_u16(b, pos, lim)?;
    let outer_class_info_index = read_u16(b, pos + 2, lim)?;
    let inner_name_index = read_u16(b, pos + 4, lim)?;
    let inner_class_access_flags = read_u16(b, pos + 6, lim)?;
    Ok((InnerClass { inner_class_info_index, outer_class_info_index, inner_name_index, inner_class_access_flags }, pos + 8))
}

/// Where one item of this kind that starts at a given position ends.
pub open spec fn inner_class_end_f(b: Seq<u8>, lim: int) -> spec_fn(int) -> Option<int> {
    |q: int| match inner_class_spec(b, q, lim) { Some((_, e)) => Some(e), None => None }
}

/// What one item of this kind is, given where it starts.
pub open spec fn inner_class_rel_f(b: Seq<u8>, lim: int) -> spec_fn(int, InnerClass) -> bool {
    |q: int, v: InnerClass| match inner_class_spec(b, q, lim) { Some((w, _)) => w == v, None => false }
}

/// Decodes `n` items of this kind laid end to end.
pub fn inner_class_list(b: &[u8], pos: usize, lim: usize, n: usize) -> (r: Result<(Vec<InnerClass>, usize), DecodeError>)
    requires
        lim <= b@.len(),
        pos <= lim,
    ensures
        match r {
            Ok((s, e)) => items_end(pos as int, n as int, inner_class_end_f(b@, lim as int)) == Some(e as int)
                && s@.len() == n && items_rel(pos as int, s@, inner_class_end_f(b@, lim as int), inner_class_rel_f(b@, lim as int))
                && pos <= e <= lim,
            Err(_) => items_end(pos as int, n as int, inner_class_end_f(b@, lim as int)) is None,
        },
{
    let ghost f = inner_class_end_f(b@, lim as int);
    let ghost g = inner_class_rel_f(b@, lim as int);
    let mut out: Vec<InnerClass> = Vec::new();
    let mut q = pos;
    let mut i: usize = 0;
    while i < n
        invariant
            lim <= b@.len(),
            pos <= q <= lim,
            0 <= i <= n,
            out@.len() == i,
            f == inner_class_end_f(b@, lim as int),
            g == inner_class_rel_f(b@, lim as int),
            items_end(pos as int, i as int, f) == Some(q as int),
            items_rel(pos as int, out@, f, g),
        decreases n - i,
    {
        match inner_class(b, q, lim) {
            Ok((v, e)) => {
                proof {
                    lemma_items_push(pos as int, out@, v, f, g);
                }
                out.push(v);
                q = e;
                i += 1;
            },
            Err(err) => {
                proof {
                    lemma_items_fail(pos as int, i as int + 1, n as int, f);
                }
                return Err(err);
            },
        }
    }
    Ok((out, q))
}

/// The record that the bytes at `p` encode, and where it ends.
pub open spec fn line_number_spec(b: Seq<u8>, p: int, lim: int) -> Option<(LineNumber, int)> {
    if fits(p, 4, lim) {
        Some((LineNumber { start_pc: be16(b, p + 0), number: be16(b, p + 2) }, p + 4))
    } else {
        None
    }
}

pub fn line_number(b: &[u8], pos: usize, lim: usize) -> (r: Result<(LineNumber, usize), DecodeError>)
    requires
        lim <= b@.len(),
    ensures
        match r {
            Ok((v, e)) => line_number_spec(b@, pos as int, lim as int) == Some((v, e as int)) && pos < e <= lim,
            Err(_) => line_number_spec(b@, pos as int, lim as int) is None,
        },
{
    let start_pc = read_u16(b, pos, lim)?;
    let number = read_u16(b, pos + 2, lim)?;
    Ok((LineNumber { start_pc, number }, pos + 4))
}

/// Where one item of this kind that starts at a given position ends.
pub open spec fn line_number_end_f(b: Seq<u8>, lim: int) -> spec_fn(int) -> Option<int> {
    |q: int| match line_number_spec(b, q, lim) { Some((_, e)) => Some(e), None => None }
}

/// What one item of this kind is, given where it starts.
pub open spec fn line_number_rel_f(b: Seq<u8>, lim: int) -> spec_fn(int, LineNumber) -> bool {
    |q: int, v: LineNumber| match line_number_spec(b, q, lim) { Some((w, _)) => w == v, None => false }
}

/// Decodes `n` items of this kind laid end to end.
pub fn line_number_list(b: &[u8], pos: usize, lim: usize, n: usize) -> (r: Result<(Vec<LineNumber>, usize), DecodeError>)
    requires
        lim <= b@.len(),
        pos <= lim,
    ensures
        match r {
            Ok((s, e)) => items_end(pos as int, n as int, line_number_end_f(b@, lim as int)) == Some(e as int)
                && s@.len() == n && items_rel(pos as int, s@, line_number_end_f(b@, lim as int), line_number_rel_f(b@, lim as int))
                && pos <= e <= lim,
            Err(_) => items_end(pos as int, n as int, line_number_end_f(b@, lim as int)) is None,
        },
{
    let ghost f = line_number_end_f(b@, lim as int);
    let ghost g = line_number_rel_f(b@, lim as int);
    let mut out: Vec<LineNumber> = Vec::new();
    let mut q = pos;
    let mut i: usize = 0;
    while i < n
        invariant
            lim <= b@.len(),
            pos <= q <= lim,
            0 <= i <= n,
            out@.len() == i,
            f == line_number_end_f(b@, lim as int),
            g == line_number_rel_f(b@, lim as int),
            items_end(pos as int, i as int, f) == Some(q as int),
            items_rel(pos as int, out@, f, g),
        decreases n - i,
    {
        match line_number(b, q, lim) {
            Ok((v, e)) => {
                proof {
                    lemma_items_push(pos as int, out@, v, f, g);
                }
                out.push(v);
                q = e;
                i += 1;
            },
            Err(err) => {
                proof {
                    lemma_items_fail(pos as int, i as int + 1, n as int, f);
                }
                return Err(err);
            },
        }
    }
    Ok((out, q))
}

/// The record that the bytes at `p` encode, and where it ends.
pub open spec fn local_variable_spec(b: Seq<u8>, p: int, lim: int) -> Option<(LocalVariable, int)> {
    if fits(p, 10, lim) {
        Some((LocalVariable { start_pc: be16(b, p + 0), length: be16(b, p + 2), name_index: be16(b, p + 4), signature_index: be16(b, p + 6), index: be16(b, p + 8) }, p + 10))
    } else {
        None
    }
}

pub fn local_variable(b: &[u8], pos: usize, lim: usize) -> (r: Result<(LocalVariable, usize), DecodeError>)
    requires
        lim <= b@.len(),
    ensures
        match r {
            Ok((v, e)) => local_variable_spec(b@, pos as int, lim as int) == Some((v, e as int)) && pos < e <= lim,
            Err(_) => local_variable_spec(b@, pos as int, lim as int) is None,
        },
{
    let start_pc = read_u16(b, pos, lim)?;
    let length = read_u16(b, pos + 2, lim)?;
    let name_index = read_u16(b, pos + 4, lim)?;
    let signature_index = read_u16(b, pos + 6, lim)?;
    let index = read_u16(b, pos + 8, lim)?;
    Ok((LocalVariable { start_pc, length, name_index, signature_index, index }, pos + 10))
}

/// Where one item of this kind that starts at a given position ends.
pub open spec fn local_variable_end_f(b: Seq<u8>, lim: int) -> spec_fn(int) -> Option<int> {
    |q: int| match local_variable_spec(b, q, lim) { Some((_, e)) => Some(e), None => None }
}

/// What one item of this kind is, given where it starts.
pub open spec fn local_variable_rel_f(b: Seq<u8>, lim: int) -> spec_fn(int, LocalVariable) -> bool {
    |q: int, v: LocalVariable| match local_variable_spec(b, q, lim) { Some((w, _)) => w == v, None => false }
}

/// Decodes `n` items of this kind laid end to end.
pub fn local_variable_list(b: &[u8], pos: usize, lim: usize, n: usize) -> (r: Result<(Vec<LocalVariable>, usize), DecodeError>)
    requires
        lim <= b@.len(),
        pos <= lim,
    ensures
        match r {
            Ok((s, e)) => items_end(pos as int, n as int, local_variable_end_f(b@, lim as int)) == Some(e as int)
                && s@.len() == n && items_rel(pos as int, s@, local_variable_end_f(b@, lim as int), local_variable_rel_f(b@, lim as int))
                && pos <= e <= lim,
            Err(_) => items_end(pos as int, n as int, local_variable_end_f(b@, lim as int)) is None,
        },
{
    let ghost f = local_variable_end_f(b@, lim as int);
    let ghost g = local_variable_rel_f(b@, lim as int);
    let mut out: Vec<LocalVariable> = Vec::new();
    let mut q = pos;
    let mut i: usize = 0;
    while i < n
        invariant
            lim <= b@.len(),
            pos <= q <= lim,
            0 <= i <= n,
            out@.len() == i,
            f == local_variable_end_f(b@, lim as int),
            g == local_variable_rel_f(b@, lim as int),
            items_end(pos as int, i as int, f) == Some(q as int),
            items_rel(pos as int, out@, f, g),
        decreases n - i,
    {
        match local_variable(b, q, lim) {
            Ok((v, e)) => {
                proof {
                    lemma_items_push(pos as int, out@, v, f, g);
                }
                out.push(v);
                q = e;
                i += 1;
            },
            Err(err) => {
                proof {
                    lemma_items_fail(pos as int, i as int + 1, n as int, f);
                }
                return Err(err);
            },
        }
    }
    Ok((out, q))
}

/// The record that the bytes at `p` encode, and where it ends.
pub open spec fn code_exception_spec(b: Seq<u8>, p: int, lim: int) -> Option<(CodeException, int)> {
    if fits(p, 8, lim) {
        Some((CodeException { start_pc: be16(b, p + 0), end_pc: be16(b, p + 2), handler_pc: be16(b, p + 4), catch_type: be16(b, p + 6) }, p + 8))
    } else {
        None
    }
}

pub fn code_exception(b: &[u8], pos: usize, lim: usize) -> (r: Result<(CodeException, usize), DecodeError>)
    requires
        lim <= b@.len(),
    ensures
        match r {
            Ok((v, e)) => code_exception_spec(b@, pos as int, lim as int) == Some((v, e as int)) && pos < e <= lim,
            Err(_) => code_exception_spec(b@, pos as int, lim as int) is None,
        },
{
    let start_pc = read_u16(b, pos, lim)?;
    let end_pc = read_u16(b, pos + 2, lim)?;
    let handler_pc = read_u16(b, pos + 4, lim)?;
    let catch_type = read_u16(b, pos + 6, lim)?;
    Ok((CodeException { start_pc, end_pc, handler_pc, catch_type }, pos + 8))
}

/// Where one item of this kind that starts at a given position ends.
pub open spec fn code_exception_end_f(b: Seq<u8>, lim: int) -> spec_fn(int) -> Option<int> {
    |q: int| match code_exception_spec(b, q, lim) { Some((_, e)) => Some(e), None => None }
}

/// What one item of this kind is, given where it starts.
pub open spec fn code_exception_rel_f(b: Seq<u8>, lim: int) -> spec_fn(int, CodeException) -> bool {
    |q: int, v: CodeException| match code_exception_spec(b, q, lim) { Some((w, _)) => w == v, None => false }
}

/// Decodes `n` items of this kind laid end to end.
pub fn code_exception_list(b: &[u8], pos: usize, lim: usize, n: usize) -> (r: Result<(Vec<CodeException>, usize), DecodeError>)
    requires
        lim <= b@.len(),
        pos <= lim,
    ensures
        match r {
            Ok((s, e)) => items_end(pos as int, n as int, code_exception_end_f(b@, lim as int)) == Some(e as int)
                && s@.len() == n && items_rel(pos as int, s@, code_exception_end_f(b@, lim as int), code_exception_rel_f(b@, lim as int))
                && pos <= e <= lim,
            Err(_) => items_end(pos as int, n as int, code_exception_end_f(b@, lim as int)) is None,
        },
{
    let ghost f = code_exception_end_f(b@, lim as int);
    let ghost g = code_exception_rel_f(b@, lim as int);
    let mut out: Vec<CodeException> = Vec::new();
    let mut q = pos;
    let mut i: usize = 0;
    while i < n
        invariant
            lim <= b@.len(),
            pos <= q <= lim,
            0 <= i <= n,
            out@.len() == i,
            f == code_exception_end_f(b@, lim as int),
            g == code_exception_rel_f(b@, lim as int),
            items_end(pos as int, i as int, f) == Some(q as int),
            items_rel(pos as int, out@, f, g),
        decreases n - i,
    {
        match code_exception(b, q, lim) {
            Ok((v, e)) => {
                proof {
                    lemma_items_push(pos as int, out@, v, f, g);
                }
                out.push(v);
                q = e;
                i += 1;
            },
            Err(err) => {
                proof {
                    lemma_items_fail(pos as int, i as int + 1, n as int, f);
                }
                return Err(err);
            },
        }
    }
    Ok((out, q))
}

/// The record that the bytes at `p` encode, and where it ends.
pub open spec fn method_parameter_spec(b: Seq<u8>, p: int, lim: int) -> Option<(MethodParameter, int)> {
    if fits(p, 4, lim) {
        Some((MethodParameter { name_index: be16(b, p + 0), acc_flags: be16(b, p + 2) }, p + 4))
    } else {
        None
    }
}

pub fn method_parameter(b: &[u8], pos: usize, lim: usize) -> (r: Result<(MethodParameter, usize), DecodeError>)
    requires
        lim <= b@.len(),
    ensures
        match r {
            Ok((v, e)) => method_parameter_spec(b@, pos as int, lim as int) == Some((v, e as int)) && pos < e <= lim,
            Err(_) => method_parameter_spec(b@, pos as int, lim as int) is None,
        },
{
    let name_index = read_u16(b, pos, lim)?;
    let acc_flags = read_u16(b, pos + 2, lim)?;
    Ok((MethodParameter { name_index, acc_flags }, pos + 4))
}

/// Where one item of this kind that starts at a given position ends.
pub open spec fn method_parameter_end_f(b: Seq<u8>, lim: int) -> spec_fn(int) -> Option<int> {
    |q: int| match method_parameter_spec(b, q, lim) { Some((_, e)) => Some(e), None => None }
}

/// What one item of this kind is, given where it starts.
pub open spec fn method_parameter_rel_f(b: Seq<u8>, lim: int) -> spec_fn(int, MethodParameter) -> bool {
    |q: int, v: MethodParameter| match method_parameter_spec(b, q, lim) { Some((w, _)) => w == v, None => false }
}

/// Decodes `n` items of this kind laid end to end.
pub fn method_parameter_list(b: &[u8], pos: usize, lim: usize, n: usize) -> (r: Result<(Vec<MethodParameter>, usize), DecodeError>)
    requires
        lim <= b@.len(),
        pos <= lim,
    ensures
        match r {
            Ok((s, e)) => items_end(pos as int, n as int, method_parameter_end_f(b@, lim as int)) == Some(e as int)
                && s@.len() == n && items_rel(pos as int, s@, method_parameter_end_f(b@, lim as int), method_parameter_rel_f(b@, lim as int))
                && pos <= e <= lim,
            Err(_) => items_end(pos as int, n as int, method_parameter_end_f(b@, lim as int)) is None,
        },
{
    let ghost f = method_parameter_end_f(b@, lim as int);
    let ghost g = method_parameter_rel_f(b@, lim as int);
    let mut out: Vec<MethodParameter> = Vec::new();
    let mut q = pos;
    let mut i: usize = 0;
    while i < n
        invariant
            lim <= b@.len(),
            pos <= q <= lim,
            0 <= i <= n,
            out@.len() == i,
            f == method_parameter_end_f(b@, lim as int),
            g == method_parameter_rel_f(b@, lim as int),
            items_end(pos as int, i as int, f) == Some(q as int),
            items_rel(pos as int, out@, f, g),
        decreases n - i,
    {
        match method_parameter(b, q, lim) {
            Ok((v, e)) => {
                proof {
                    lemma_items_push(pos as int, out@, v, f, g);
                }
                out.push(v);
                q = e;
                i += 1;
            },
            Err(err) => {
                proof {
                    lemma_items_fail(pos as int, i as int + 1, n as int, f);
                }
                return Err(err);
            },
        }
    }
    Ok((out, q))
}

/// The record that the bytes at `p` encode, and where it ends.
pub open spec fn type_path_spec(b: Seq<u8>, p: int, lim: int) -> Option<(TypePath, int)> {
    if fits(p, 2, lim) {
        Some((TypePath { type_path_kind: b[p + 0], type_argument_index: b[p + 1] }, p + 2))
    } else {
        None
    }
}

pub fn type_path(b: &[u8], pos: usize, lim: usize) -> (r: Result<(TypePath, usize), DecodeError>)
    requires
        lim <= b@.len(),
    ensures
        match r {
            Ok((v, e)) => type_path_spec(b@, pos as int, lim as int) == Some((v, e as int)) && pos < e <= lim,
            Err(_) => type_path_spec(b@, pos as int, lim as int) is None,
        },
{
    let type_path_kind = read_u8(b, pos, lim)?;
    let type_argument_index = read_u8(b, pos + 1, lim)?;
    Ok((TypePath { type_path_kind, type_argument_index }, pos + 2))
}

/// Where one item of this kind that starts at a given position ends.
pub open spec fn type_path_end_f(b: Seq<u8>, lim: int) -> spec_fn(int) -> Option<int> {
    |q: int| match type_path_spec(b, q, lim) { Some((_, e)) => Some(e), None => None }
}

/// What one item of this kind is, given where it starts.
pub open spec fn type_path_rel_f(b: Seq<u8>, lim: int) -> spec_fn(int, TypePath) -> bool {
    |q: int, v: TypePath| match type_path_spec(b, q, lim) { Some((w, _)) => w == v, None => false }
}

/// Decodes `n` items of this kind laid end to end.
pub fn type_path_list(b: &[u8], pos: usize, lim: usize, n: usize) -> (r: Result<(Vec<TypePath>, usize), DecodeError>)
    requires
        lim <= b@.len(),
        pos <= lim,
    ensures
        match r {
            Ok((s, e)) => items_end(pos as int, n as int, type_path_end_f(b@, lim as int)) == Some(e as int)
                && s@.len() == n && items_rel(pos as int, s@, type_path_end_f(b@, lim as int), type_path_rel_f(b@, lim as int))
                && pos <= e <= lim,
            Err(_) => items_end(pos as int, n as int, type_path_end_f(b@, lim as int)) is None,
        },
{
    let ghost f = type_path_end_f(b@, lim as int);
    let ghost g = type_path_rel_f(b@, lim as int);
    let mut out: Vec<TypePath> = Vec::new();
    let mut q = pos;
    let mut i: usize = 0;
    while i < n
        invariant
            lim <= b@.len(),
            pos <= q <= lim,
            0 <= i <= n,
            out@.len() == i,
            f == type_path_end_f(b@, lim as int),
            g == type_path_rel_f(b@, lim as int),
            items_end(pos as int, i as int, f) == Some(q as int),
            items_rel(pos as int, out@, f, g),
        decreases n - i,
    {
        match type_path(b, q, lim) {
            Ok((v, e)) => {
                proof {
                    lemma_items_push(pos as int, out@, v, f, g);
                }
                out.push(v);
                q = e;
                i += 1;
            },
            Err(err) => {
                proof {
                    lemma_items_fail(pos as int, i as int + 1, n as int, f);
                }
                return Err(err);
            },
        }
    }
    Ok((out, q))
}

/// The record that the bytes at `p` encode, and where it ends.
pub open spec fn local_var_target_spec(b: Seq<u8>, p: int, lim: int) -> Option<(LocalVarTargetTable, int)> {
    if fits(p, 6, lim) {
        Some((LocalVarTargetTable { start_pc: be16(b, p + 0), length: be16(b, p + 2), index: be16(b, p + 4) }, p + 6))
    } else {
        None
    }
}

pub fn local_var_target(b: &[u8], pos: usize, lim: usize) -> (r: Result<(LocalVarTargetTable, usize), DecodeError>)
    requires
        lim <= b@.len(),
    ensures
        match r {
            Ok((v, e)) => local_var_target_spec(b@, pos as int, lim as int) == Some((v, e as int)) && pos < e <= lim,
            Err(_) => local_var_target_spec(b@, pos as int, lim as int) is None,
        },
{
    let start_pc = read_u16(b, pos, lim)?;
    let length = read_u16(b, pos + 2, lim)?;
    let index = read_u16(b, pos + 4, lim)?;
    Ok((LocalVarTargetTable { start_pc, length, index }, pos + 6))
}

/// Where one item of this kind that starts at a given position ends.
pub open spec fn local_var_target_end_f(b: Seq<u8>, lim: int) -> spec_fn(int) -> Option<int> {
    |q: int| match local_var_target_spec(b, q, lim) { Some((_, e)) => Some(e), None => None }
}

/// What one item of this kind is, given where it starts.
pub open spec fn local_var_target_rel_f(b: Seq<u8>, lim: int) -> spec_fn(int, LocalVarTargetTable) -> bool {
    |q: int, v: LocalVarTargetTable| match local_var_target_spec(b, q, lim) { Some((w, _)) => w == v, None => false }
}

/// Decodes `n` items of this kind laid end to end.
pub fn local_var_target_list(b: &[u8], pos: usize, lim: usize, n: usize) -> (r: Result<(Vec<LocalVarTargetTable>, usize), DecodeError>)
    requires
        lim <= b@.len(),
        pos <= lim,
    ensures
        match r {
            Ok((s, e)) => items_end(pos as int, n as int, local_var_target_end_f(b@, lim as int)) == Some(e as int)
                && s@.len() == n && items_rel(pos as int, s@, local_var_target_end_f(b@, lim as int), local_var_target_rel_f(b@, lim as int))
                && pos <= e <= lim,
            Err(_) => items_end(pos as int, n as int, local_var_target_end_f(b@, lim as int)) is None,
        },
{
    let ghost f = local_var_target_end_f(b@, lim as int);
    let ghost g = local_var_target_rel_f(b@, lim as int);
    let mut out: Vec<LocalVarTargetTable> = Vec::new();
    let mut q = pos;
    let mut i: usize = 0;
    while i < n
        invariant
            lim <= b@.len(),
            pos <= q <= lim,
            0 <= i <= n,
            out@.len() == i,
            f == local_var_target_end_f(b@, lim as int),
            g == local_var_target_rel_f(b@, lim as int),
            items_end(pos as int, i as int, f) == Some(q as int),
            items_rel(pos as int, out@, f, g),
        decreases n - i,
    {
        match local_var_target(b, q, lim) {
            Ok((v, e)) => {
                proof {
                    lemma_items_push(pos as int, out@, v, f, g);
                }
                out.push(v);
                q = e;
                i += 1;
            },
            Err(err) => {
                proof {
                    lemma_items_fail(pos as int, i as int + 1, n as int, f);
                }
                return Err(err);
            },
        }
    }
    Ok((out, q))
}

} // verus!

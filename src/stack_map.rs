//! Stack map frames and the verification types they list.
use vstd::prelude::*;
use crate::bytes::{DecodeError, fits, be16, read_u8, read_u16};
use crate::items::{items_end, items_rel, lemma_items_fail, lemma_items_push};
use crate::attributes::{StackMapFrame, VerificationTypeInfo};

verus! {

/// The record that the bytes at `p` encode, and where it ends.
pub open spec fn vti_spec(b: Seq<u8>, p: int, lim: int) -> Option<(VerificationTypeInfo, int)> {
    if !fits(p, 1, lim) {
        None
    } else if b[p] == 0 {
        Some((VerificationTypeInfo::Top, p + 1))
    } else if b[p] == 1 {
        Some((VerificationTypeInfo::Integer, p + 1))
    } else if b[p] == 2 {
        Some((VerificationTypeInfo::Float, p + 1))
    } else if b[p] == 3 {
        Some((VerificationTypeInfo::Long, p + 1))
    } else if b[p] == 4 {
        Some((VerificationTypeInfo::Double, p + 1))
    } else if b[p] == 5 {
        Some((VerificationTypeInfo::Null, p + 1))
    } else if b[p] == 6 {
        Some((VerificationTypeInfo::UninitializedThis, p + 1))
    } else if b[p] == 7 && fits(p + 1, 2, lim) {
        Some((VerificationTypeInfo::Object { cpool_index: be16(b, p + 1) }, p + 3))
    } else if b[p] == 8 && fits(p + 1, 2, lim) {
        Some((VerificationTypeInfo::Uninitialized { offset: be16(b, p + 1) }, p + 3))
    } else {
        None
    }
}

/// One verification type: a kind byte, and for `Object` and
/// `Uninitialized` a 16-bit operand.
pub fn vti(b: &[u8], pos: usize, lim: usize) -> (r: Result<(VerificationTypeInfo, usize), DecodeError>)
    requires
        lim <= b@.len(),
    ensures
        match r {
            Ok((v, e)) => vti_spec(b@, pos as int, lim as int) == Some((v, e as int)) && pos < e <= lim,
            Err(_) => vti_spec(b@, pos as int, lim as int) is None,
        },
{
    let id = read_u8(b, pos, lim)?;
    match id {
        0 => Ok((VerificationTypeInfo::Top, pos + 1)),
        1 => Ok((VerificationTypeInfo::Integer, pos + 1)),
        2 => Ok((VerificationTypeInfo::Float, pos + 1)),
        3 => Ok((VerificationTypeInfo::Long, pos + 1)),
        4 => Ok((VerificationTypeInfo::Double, pos + 1)),
        5 => Ok((VerificationTypeInfo::Null, pos + 1)),
        6 => Ok((VerificationTypeInfo::UninitializedThis, pos + 1)),
        7 => {
            let cpool_index = read_u16(b, pos + 1, lim)?;
            Ok((VerificationTypeInfo::Object { cpool_index }, pos + 3))
        },
        8 => {
            let offset = read_u16(b, pos + 1, lim)?;
            Ok((VerificationTypeInfo::Uninitialized { offset }, pos + 3))
        },
        _ => Err(DecodeError::Malformed),
    }
}

/// Where one item of this kind that starts at a given position ends.
pub open spec fn vti_end_f(b: Seq<u8>, lim: int) -> spec_fn(int) -> Option<int> {
    |q: int| match vti_spec(b, q, lim) { Some((_, e)) => Some(e), None => None }
}

/// What one item of this kind is, given where it starts.
pub open spec fn vti_rel_f(b: Seq<u8>, lim: int) -> spec_fn(int, VerificationTypeInfo) -> bool {
    |q: int, v: VerificationTypeInfo| match vti_spec(b, q, lim) { Some((w, _)) => w == v, None => false }
}

/// Decodes `n` items of this kind laid end to end.
pub fn vti_list(b: &[u8], pos: usize, lim: usize, n: usize) -> (r: Result<(Vec<VerificationTypeInfo>, usize), DecodeError>)
    requires
        lim <= b@.len(),
        pos <= lim,
    ensures
        match r {
            Ok((s, e)) => items_end(pos as int, n as int, vti_end_f(b@, lim as int)) == Some(e as int)
                && s@.len() == n && items_rel(pos as int, s@, vti_end_f(b@, lim as int), vti_rel_f(b@, lim as int))
                && pos <= e <= lim,
            Err(_) => items_end(pos as int, n as int, vti_end_f(b@, lim as int)) is None,
        },
{
    let ghost f = vti_end_f(b@, lim as int);
    let ghost g = vti_rel_f(b@, lim as int);
    let mut out: Vec<VerificationTypeInfo> = Vec::new();
    let mut q = pos;
    let mut i: usize = 0;
    while i < n
        invariant
            lim <= b@.len(),
            pos <= q <= lim,
            0 <= i <= n,
            out@.len() == i,
            f == vti_end_f(b@, lim as int),
            g == vti_rel_f(b@, lim as int),
            items_end(pos as int, i as int, f) == Some(q as int),
            items_rel(pos as int, out@, f, g),
        decreases n - i,
    {
        match vti(b, q, lim) {
            Ok((v, e)) => {
                proof {
                    lemma_items_push(pos as int, out@, v, f, g);
                }
                out.push(v);
                q = e;
                i += 1;
            },
            Err(err) => {
                proof {
                    lemma_items_fail(pos as int, i as int + 1, n as int, f);
                }
                return Err(err);
            },
        }
    }
    Ok((out, q))
}

/// Where the frame that starts at `p` ends, if it decodes. The leading byte
/// selects the shape by its range.
pub open spec fn frame_end(b: Seq<u8>, p: int, lim: int) -> Option<int> {
    if !fits(p, 1, lim) {
        None
    } else {
        let t = b[p];
        if t <= 63 {
            Some(p + 1)
        } else if t <= 127 {
            vti_end_f(b, lim)(p + 1)
        } else if t <= 246 {
            Some(p + 1)
        } else if !fits(p + 1, 2, lim) {
            None
        } else if t == 247 {
            vti_end_f(b, lim)(p + 3)
        } else if t <= 251 {
            Some(p + 3)
        } else if t <= 254 {
            items_end(p + 3, t - 251, vti_end_f(b, lim))
        } else if !fits(p + 3, 2, lim) {
            None
        } else {
            match items_end(p + 5, be16(b, p + 3) as int, vti_end_f(b, lim)) {
                Some(q) => if fits(q, 2, lim) {
                    items_end(q + 2, be16(b, q) as int, vti_end_f(b, lim))
                } else {
                    None
                },
                None => None,
            }
        }
    }
}

/// `f` is the frame that the bytes at `p` encode.
pub open spec fn frame_rel(b: Seq<u8>, p: int, lim: int, f: StackMapFrame) -> bool {
    let t = b[p];
    let vf = vti_end_f(b, lim);
    let vr = vti_rel_f(b, lim);
    if t <= 63 {
        f == StackMapFrame::Same { tag: t, offset_delta: t as u16 }
    } else if t <= 127 {
        f matches StackMapFrame::SameLocals1StackItem { tag, offset_delta, stack } && tag == t
            && offset_delta == (t - 64) as u16 && vr(p + 1, stack[0])
    } else if t <= 246 {
        f == StackMapFrame::Reserved(t)
    } else if t == 247 {
        f matches StackMapFrame::SameLocals1StackItem { tag, offset_delta, stack } && tag == t
            && offset_delta == be16(b, p + 1) && vr(p + 3, stack[0])
    } else if t <= 250 {
        f == StackMapFrame::Chop { tag: t, offset_delta: be16(b, p + 1) }
    } else if t == 251 {
        f == StackMapFrame::SameExtended { tag: t, offset_delta: be16(b, p + 1) }
    } else if t <= 254 {
        f matches StackMapFrame::Append { tag, offset_delta, locals } && tag == t && offset_delta
            == be16(b, p + 1) && locals@.len() == t - 251 && items_rel(p + 3, locals@, vf, vr)
    } else {
        match f {
            StackMapFrame::Full { tag, offset_delta, locals, stack } => {
                &&& tag == t
                &&& offset_delta == be16(b, p + 1)
                &&& locals@.len() == be16(b, p + 3)
                &&& items_rel(p + 5, locals@, vf, vr)
                &&& match items_end(p + 5, be16(b, p + 3) as int, vf) {
                    Some(q) => stack@.len() == be16(b, q) && items_rel(q + 2, stack@, vf, vr),
                    None => false,
                }
            },
            _ => false,
        }
    }
}

/// Decodes one stack map frame.
pub fn stack_map_frame(b: &[u8], pos: usize, lim: usize) -> (r: Result<(StackMapFrame, usize), DecodeError>)
    requires
        lim <= b@.len(),
    ensures
        match r {
            Ok((v, e)) => frame_end(b@, pos as int, lim as int) == Some(e as int) && frame_rel(
                b@,
                pos as int,
                lim as int,
                v,
            ) && pos < e <= lim,
            Err(_) => frame_end(b@, pos as int, lim as int) is None,
        },
{
    let t = read_u8(b, pos, lim)?;
    if t <= 63 {
        Ok((StackMapFrame::Same { tag: t, offset_delta: t as u16 }, pos + 1))
    } else if t <= 127 {
        let (info, e) = vti(b, pos + 1, lim)?;
        Ok((StackMapFrame::SameLocals1StackItem { tag: t, offset_delta: (t - 64) as u16, stack: [info] }, e))
    } else if t <= 246 {
        Ok((StackMapFrame::Reserved(t), pos + 1))
    } else {
        let offset_delta = read_u16(b, pos + 1, lim)?;
        if t == 247 {
            let (info, e) = vti(b, pos + 3, lim)?;
            Ok((StackMapFrame::SameLocals1StackItem { tag: t, offset_delta, stack: [info] }, e))
        } else if t <= 250 {
            Ok((StackMapFrame::Chop { tag: t, offset_delta }, pos + 3))
        } else if t == 251 {
            Ok((StackMapFrame::SameExtended { tag: t, offset_delta }, pos + 3))
        } else if t <= 254 {
            let (locals, e) = vti_list(b, pos + 3, lim, (t - 251) as usize)?;
            Ok((StackMapFrame::Append { tag: t, offset_delta, locals }, e))
        } else {
            let locals_count = read_u16(b, pos + 3, lim)?;
            let (locals, q) = vti_list(b, pos + 5, lim, locals_count as usize)?;
            let stack_count = read_u16(b, q, lim)?;
            let (stack, e) = vti_list(b, q + 2, lim, stack_count as usize)?;
            Ok((StackMapFrame::Full { tag: t, offset_delta, locals, stack }, e))
        }
    }
}

/// Where one item of this kind that starts at a given position ends.
pub open spec fn frame_end_f(b: Seq<u8>, lim: int) -> spec_fn(int) -> Option<int> {
    |q: int| frame_end(b, q, lim)
}

/// What one item of this kind is, given where it starts.
pub open spec fn frame_rel_f(b: Seq<u8>, lim: int) -> spec_fn(int, StackMapFrame) -> bool {
    |q: int, v: StackMapFrame| frame_rel(b, q, lim, v)
}

/// Decodes `n` items of this kind laid end to end.
pub fn frame_list(b: &[u8], pos: usize, lim: usize, n: usize) -> (r: Result<(Vec<StackMapFrame>, usize), DecodeError>)
    requires
        lim <= b@.len(),
        pos <= lim,
    ensures
        match r {
            Ok((s, e)) => items_end(pos as int, n as int, frame_end_f(b@, lim as int)) == Some(e as int)
                && s@.len() == n && items_rel(pos as int, s@, frame_end_f(b@, lim as int), frame_rel_f(b@, lim as int))
                && pos <= e <= lim,
            Err(_) => items_end(pos as int, n as int, frame_end_f(b@, lim as int)) is None,
        },
{
    let ghost f = frame_end_f(b@, lim as int);
    let ghost g = frame_rel_f(b@, lim as int);
    let mut out: Vec<StackMapFrame> = Vec::new();
    let mut q = pos;
    let mut i: usize = 0;
    while i < n
        invariant
            lim <= b@.len(),
            pos <= q <= lim,
            0 <= i <= n,
            out@.len() == i,
            f == frame_end_f(b@, lim as int),
            g == frame_rel_f(b@, lim as int),
            items_end(pos as int, i as int, f) == Some(q as int),
            items_rel(pos as int, out@, f, g),
        decreases n - i,
    {
        match stack_map_frame(b, q, lim) {
            Ok((v, e)) => {
                proof {
                    lemma_items_push(pos as int, out@, v, f, g);
                }
                out.push(v);
                q = e;
                i += 1;
            },
            Err(err) => {
                proof {
                    lemma_items_fail(pos as int, i as int + 1, n as int, f);
                }
                return Err(err);
            },
        }
    }
    Ok((out, q))
}

} // verus!

//! The constant pool: its entries, their decoding, and lookups into it.
use vstd::prelude::*;
use std::sync::Arc;
use crate::bytes::{DecodeError, fits, be16, read_u8, read_u16, copy_range};
use crate::items::{items_end, lemma_items_fail};

verus! {

/// One slot of the constant pool. `Nop` fills slot 0 and the slot after each
/// `Long` or `Double`.
#[derive(Clone, Debug)]
pub enum Type {
    Nop,
    Class { name_index: u16 },
    FieldRef { class_index: u16, name_and_type_index: u16 },
    MethodRef { class_index: u16, name_and_type_index: u16 },
    InterfaceMethodRef { class_index: u16, name_and_type_index: u16 },
    String { string_index: u16 },
    Integer { v: [u8; 4] },
    Float { v: [u8; 4] },
    Long { v: [u8; 8] },
    Double { v: [u8; 8] },
    NameAndType { name_index: u16, desc_index: u16 },
    Utf8 { bytes: Arc<Vec<u8>> },
    MethodHandle { ref_kind: u8, ref_index: u16 },
    MethodType { desc_index: u16 },
    InvokeDynamic { bootstrap_method_attr_index: u16, name_and_type_index: u16 },
}

/// The kind of a constant-pool entry, as its leading byte gives it.
#[derive(Clone, Copy, Debug, PartialEq, Eq, Structural)]
pub enum Tag {
    Class,
    FieldRef,
    MethodRef,
    InterfaceMethodRef,
    String,
    Integer,
    Float,
    Long,
    Double,
    NameAndType,
    Utf8,
    MethodHandle,
    MethodType,
    InvokeDynamic,
}

/// The record that the bytes at `p` encode, and where it ends.
pub open spec fn tag_spec(t: u8) -> Option<Tag> {
    if t == 7 {
        Some(Tag::Class)
    } else if t == 9 {
        Some(Tag::FieldRef)
    } else if t == 10 {
        Some(Tag::MethodRef)
    } else if t == 11 {
        Some(Tag::InterfaceMethodRef)
    } else if t == 8 {
        Some(Tag::String)
    } else if t == 3 {
        Some(Tag::Integer)
    } else if t == 4 {
        Some(Tag::Float)
    } else if t == 5 {
        Some(Tag::Long)
    } else if t == 6 {
        Some(Tag::Double)
    } else if t == 12 {
        Some(Tag::NameAndType)
    } else if t == 1 {
        Some(Tag::Utf8)
    } else if t == 15 {
        Some(Tag::MethodHandle)
    } else if t == 16 {
        Some(Tag::MethodType)
    } else if t == 18 {
        Some(Tag::InvokeDynamic)
    } else {
        None
    }
}

impl Tag {
    /// The kind that a tag byte names; `None` for a byte that names none.
    pub fn from_byte(t: u8) -> (r: Option<Tag>)
        ensures
            r == tag_spec(t),
    {
        match t {
            7 => Some(Tag::Class),
            9 => Some(Tag::FieldRef),
            10 => Some(Tag::MethodRef),
            11 => Some(Tag::InterfaceMethodRef),
            8 => Some(Tag::String),
            3 => Some(Tag::Integer),
            4 => Some(Tag::Float),
            5 => Some(Tag::Long),
            6 => Some(Tag::Double),
            12 => Some(Tag::NameAndType),
            1 => Some(Tag::Utf8),
            15 => Some(Tag::MethodHandle),
            16 => Some(Tag::MethodType),
            18 => Some(Tag::InvokeDynamic),
            _ => None,
        }
    }
}

/// Bytes after the tag of an entry of fixed size.
pub open spec fn payload_len(t: Tag) -> int {
    match t {
        Tag::Class | Tag::String | Tag::MethodType => 2,
        Tag::MethodHandle => 3,
        Tag::Long | Tag::Double => 8,
        _ => 4,
    }
}

/// Where the entry that starts at `p` ends, if it decodes.
#[verifier::opaque]
pub open spec fn cp_entry_end(b: Seq<u8>, p: int, lim: int) -> Option<int> {
    if !fits(p, 1, lim) {
        None
    } else {
        match tag_spec(b[p]) {
            None => None,
            Some(Tag::Utf8) => if fits(p + 1, 2, lim) && fits(p + 3, be16(b, p + 1) as int, lim) {
                Some(p + 3 + be16(b, p + 1))
            } else {
                None
            },
            Some(t) => if fits(p + 1, payload_len(t), lim) {
                Some(p + 1 + payload_len(t))
            } else {
                None
            },
        }
    }
}

/// `v` is the entry that the bytes at `p` encode.
#[verifier::opaque]
pub open spec fn cp_entry_rel(b: Seq<u8>, p: int, v: Type) -> bool {
    match tag_spec(b[p]) {
        Some(Tag::Class) => v == Type::Class { name_index: be16(b, p + 1) },
        Some(Tag::FieldRef) => v == Type::FieldRef {
            class_index: be16(b, p + 1),
            name_and_type_index: be16(b, p + 3),
        },
        Some(Tag::MethodRef) => v == Type::MethodRef {
            class_index: be16(b, p + 1),
            name_and_type_index: be16(b, p + 3),
        },
        Some(Tag::InterfaceMethodRef) => v == Type::InterfaceMethodRef {
            class_index: be16(b, p + 1),
            name_and_type_index: be16(b, p + 3),
        },
        Some(Tag::String) => v == Type::String { string_index: be16(b, p + 1) },
        Some(Tag::Integer) => v matches Type::Integer { v: a } && a@ == b.subrange(p + 1, p + 5),
        Some(Tag::Float) => v matches Type::Float { v: a } && a@ == b.subrange(p + 1, p + 5),
        Some(Tag::Long) => v matches Type::Long { v: a } && a@ == b.subrange(p + 1, p + 9),
        Some(Tag::Double) => v matches Type::Double { v: a } && a@ == b.subrange(p + 1, p + 9),
        Some(Tag::NameAndType) => v == Type::NameAndType {
            name_index: be16(b, p + 1),
            desc_index: be16(b, p + 3),
        },
        Some(Tag::Utf8) => v matches Type::Utf8 { bytes } && bytes@ == b.subrange(
            p + 3,
            p + 3 + be16(b, p + 1),
        ),
        Some(Tag::MethodHandle) => v == Type::MethodHandle {
            ref_kind: b[p + 1],
            ref_index: be16(b, p + 2),
        },
        Some(Tag::MethodType) => v == Type::MethodType { desc_index: be16(b, p + 1) },
        Some(Tag::InvokeDynamic) => v == Type::InvokeDynamic {
            bootstrap_method_attr_index: be16(b, p + 1),
            name_and_type_index: be16(b, p + 3),
        },
        None => false,
    }
}

fn take4(b: &[u8], pos: usize, lim: usize) -> (r: Result<[u8; 4], DecodeError>)
    requires
        lim <= b@.len(),
    ensures
        match r {
            Ok(a) => fits(pos as int, 4, lim as int) && a@ == b@.subrange(pos as int, pos + 4),
            Err(e) => !fits(pos as int, 4, lim as int) && e == DecodeError::Malformed,
        },
{
    if pos < lim && lim - pos >= 4 {
        let a = [b[pos], b[pos + 1], b[pos + 2], b[pos + 3]];
        assert(a@ =~= b@.subrange(pos as int, pos + 4));
        Ok(a)
    } else {
        Err(DecodeError::Malformed)
    }
}

fn take8(b: &[u8], pos: usize, lim: usize) -> (r: Result<[u8; 8], DecodeError>)
    requires
        lim <= b@.len(),
    ensures
        match r {
            Ok(a) => fits(pos as int, 8, lim as int) && a@ == b@.subrange(pos as int, pos + 8),
            Err(e) => !fits(pos as int, 8, lim as int) && e == DecodeError::Malformed,
        },
{
    if pos < lim && lim - pos >= 8 {
        let a = [
            b[pos],
            b[pos + 1],
            b[pos + 2],
            b[pos + 3],
            b[pos + 4],
            b[pos + 5],
            b[pos + 6],
            b[pos + 7],
        ];
        assert(a@ =~= b@.subrange(pos as int, pos + 8));
        Ok(a)
    } else {
        Err(DecodeError::Malformed)
    }
}

/// Decodes one entry: a tag byte, then that kind's payload.
pub fn cp_entry(b: &[u8], pos: usize, lim: usize) -> (r: Result<(Type, usize), DecodeError>)
    requires
        lim <= b@.len(),
    ensures
        match r {
            Ok((v, e)) => cp_entry_end(b@, pos as int, lim as int) == Some(e as int)
                && cp_entry_rel(b@, pos as int, v) && pos < e <= lim
                && (is_wide(b@, pos as int) <==> (v is Long || v is Double))
                && utf8_of(v) == entry_name(b@, pos as int),
            Err(_) => cp_entry_end(b@, pos as int, lim as int) is None,
        },
{
    reveal(cp_entry_rel);
    reveal(cp_entry_end);
    let t = read_u8(b, pos, lim)?;
    let tag = match Tag::from_byte(t) {
        Some(tag) => tag,
        None => return Err(DecodeError::Malformed),
    };
    let q = pos + 1;
    match tag {
        Tag::Class => {
            let name_index = read_u16(b, q, lim)?;
            Ok((Type::Class { name_index }, q + 2))
        },
        Tag::FieldRef => {
            let class_index = read_u16(b, q, lim)?;
            let name_and_type_index = read_u16(b, q + 2, lim)?;
            Ok((Type::FieldRef { class_index, name_and_type_index }, q + 4))
        },
        Tag::MethodRef => {
            let class_index = read_u16(b, q, lim)?;
            let name_and_type_index = read_u16(b, q + 2, lim)?;
            Ok((Type::MethodRef { class_index, name_and_type_index }, q + 4))
        },
        Tag::InterfaceMethodRef => {
            let class_index = read_u16(b, q, lim)?;
            let name_and_type_index = read_u16(b, q + 2, lim)?;
            Ok((Type::InterfaceMethodRef { class_index, name_and_type_index }, q + 4))
        },
        Tag::String => {
            let string_index = read_u16(b, q, lim)?;
            Ok((Type::String { string_index }, q + 2))
        },
        Tag::Integer => {
            let v = take4(b, q, lim)?;
            Ok((Type::Integer { v }, q + 4))
        },
        Tag::Float => {
            let v = take4(b, q, lim)?;
            Ok((Type::Float { v }, q + 4))
        },
        Tag::Long => {
            let v = take8(b, q, lim)?;
            Ok((Type::Long { v }, q + 8))
        },
        Tag::Double => {
            let v = take8(b, q, lim)?;
            Ok((Type::Double { v }, q + 8))
        },
        Tag::NameAndType => {
            let name_index = read_u16(b, q, lim)?;
            let desc_index = read_u16(b, q + 2, lim)?;
            Ok((Type::NameAndType { name_index, desc_index }, q + 4))
        },
        Tag::Utf8 => {
            let len = read_u16(b, q, lim)? as usize;
            if len > lim - (q + 2) {
                return Err(DecodeError::Malformed);
            }
            let bytes = copy_range(b, q + 2, q + 2 + len);
            Ok((Type::Utf8 { bytes: Arc::new(bytes) }, q + 2 + len))
        },
        Tag::MethodHandle => {
            let ref_kind = read_u8(b, q, lim)?;
            let ref_index = read_u16(b, q + 1, lim)?;
            Ok((Type::MethodHandle { ref_kind, ref_index }, q + 3))
        },
        Tag::MethodType => {
            let desc_index = read_u16(b, q, lim)?;
            Ok((Type::MethodType { desc_index }, q + 2))
        },
        Tag::InvokeDynamic => {
            let bootstrap_method_attr_index = read_u16(b, q, lim)?;
            let name_and_type_index = read_u16(b, q + 2, lim)?;
            Ok((Type::InvokeDynamic { bootstrap_method_attr_index, name_and_type_index }, q + 4))
        },
    }
}

/// Where one item of this kind that starts at a given position ends.
pub open spec fn entry_end_f(b: Seq<u8>, lim: int) -> spec_fn(int) -> Option<int> {
    |q: int| cp_entry_end(b, q, lim)
}

/// A `Long` or `Double` entry starts at `q`: it takes two slots.
pub open spec fn is_wide(b: Seq<u8>, q: int) -> bool {
    b[q] == 5 || b[q] == 6
}

/// How many of the first `k` entries that start at `p` take two slots.
pub open spec fn wides(b: Seq<u8>, p: int, lim: int, k: int) -> int
    decreases k,
{
    if k <= 0 {
        0
    } else {
        wides(b, p, lim, k - 1) + match items_end(p, k - 1, entry_end_f(b, lim)) {
            Some(q) => if is_wide(b, q) {
                1int
            } else {
                0int
            },
            None => 0int,
        }
    }
}

/// The slot that entry `k` fills: slot 0 is reserved.
pub open spec fn slot(b: Seq<u8>, p: int, lim: int, k: int) -> int {
    1 + k + wides(b, p, lim, k)
}

/// The number of logical entries that the count at `p` announces.
pub open spec fn entry_count(b: Seq<u8>, p: int) -> int {
    if be16(b, p) == 0 {
        0
    } else {
        be16(b, p) - 1
    }
}

/// Where the pool whose count stands at `p` ends, if it decodes.
pub open spec fn pool_end(b: Seq<u8>, p: int, lim: int) -> Option<int> {
    if fits(p, 2, lim) {
        items_end(p + 2, entry_count(b, p), entry_end_f(b, lim))
    } else {
        None
    }
}

/// `s` is the pool whose count stands at `p`: slot 0 and the slot after each
/// two-slot entry hold `Nop`, every other slot the next entry in the stream.
pub open spec fn pool_rel(b: Seq<u8>, p: int, lim: int, s: Seq<Type>) -> bool {
    let n = entry_count(b, p);
    &&& s.len() == slot(b, p + 2, lim, n)
    &&& s[0] == Type::Nop
    &&& pool_prefix(b, p + 2, lim, n, s)
}

/// The first `i` entries stand in `s` at their slots.
pub open spec fn pool_prefix(b: Seq<u8>, p: int, lim: int, i: int, s: Seq<Type>) -> bool {
    forall|k: int|
        0 <= k < i ==> match #[trigger] items_end(p, k, entry_end_f(b, lim)) {
            Some(q) => cp_entry_rel(b, q, s[slot(b, p, lim, k)]) && (is_wide(b, q) ==> s[slot(
                b,
                p,
                lim,
                k,
            ) + 1] == Type::Nop),
            None => false,
        }
}

proof fn lemma_pool_step(b: Seq<u8>, p: int, lim: int, i: int, q: int, v: Type, s: Seq<Type>, t: Seq<Type>)
    requires
        0 <= i,
        pool_prefix(b, p, lim, i, s),
        s.len() == slot(b, p, lim, i),
        items_end(p, i, entry_end_f(b, lim)) == Some(q),
        cp_entry_rel(b, q, v),
        t == (if is_wide(b, q) { s.push(v).push(Type::Nop) } else { s.push(v) }),
        utf8_table(s) == names_upto(b, p, lim, i),
        utf8_of(v) == entry_name(b, q),
    ensures
        utf8_table(t) == names_upto(b, p, lim, i + 1),
        pool_prefix(b, p, lim, i + 1, t),
        t.len() == slot(b, p, lim, i + 1),
        t[0] == s[0],
{
    lemma_slot_mono(b, p, lim, 0, i);
    if is_wide(b, q) {
        assert(utf8_table(t) =~= utf8_table(s).push(entry_name(b, q)).push(None));
    } else {
        assert(utf8_table(t) =~= utf8_table(s).push(entry_name(b, q)));
    }
    assert(wides(b, p, lim, i + 1) == wides(b, p, lim, i) + if is_wide(b, q) { 1int } else { 0int });
    assert forall|k: int| 0 <= k < i + 1 implies match #[trigger] items_end(p, k, entry_end_f(b, lim)) {
        Some(r) => cp_entry_rel(b, r, t[slot(b, p, lim, k)]) && (is_wide(b, r) ==> t[slot(b, p, lim, k) + 1] == Type::Nop),
        None => false,
    } by {
        if k < i {
            lemma_slot_mono(b, p, lim, k + 1, i);
            lemma_slot_mono(b, p, lim, 0, k);
            let r = items_end(p, k, entry_end_f(b, lim)).unwrap();
            assert(wides(b, p, lim, k + 1) == wides(b, p, lim, k) + if is_wide(b, r) { 1int } else { 0int });
            assert(t[slot(b, p, lim, k)] == s[slot(b, p, lim, k)]);
            if is_wide(b, items_end(p, k, entry_end_f(b, lim)).unwrap()) {
                assert(t[slot(b, p, lim, k) + 1] == s[slot(b, p, lim, k) + 1]);
            }
        }
    }
}

proof fn lemma_slot_mono(b: Seq<u8>, p: int, lim: int, k: int, i: int)
    requires
        0 <= k <= i,
    ensures
        slot(b, p, lim, k) <= slot(b, p, lim, i),
    decreases i - k,
{
    if k < i {
        lemma_slot_mono(b, p, lim, k, i - 1);
    }
}

/// Decodes the pool: a 16-bit count, then one entry fewer than the count,
/// each `Long` and `Double` followed by a `Nop` slot.
pub fn constant_pool(b: &[u8], pos: usize, lim: usize) -> (r: Result<(Vec<Type>, usize), DecodeError>)
    requires
        lim <= b@.len(),
    ensures
        match r {
            Ok((s, e)) => pool_end(b@, pos as int, lim as int) == Some(e as int) && pool_rel(
                b@,
                pos as int,
                lim as int,
                s@,
            ) && e <= lim && utf8_table(s@) == pool_names(b@, pos as int, lim as int),
            Err(_) => pool_end(b@, pos as int, lim as int) is None,
        },
{
    let count = read_u16(b, pos, lim)?;
    let n: u16 = if count == 0 {
        0
    } else {
        count - 1
    };
    let start = pos + 2;
    let ghost bs = b@;
    let ghost f = entry_end_f(bs, lim as int);
    let mut out: Vec<Type> = Vec::new();
    out.push(Type::Nop);
    let mut q = start;
    let mut i: u16 = 0;
    assert(utf8_table(out@) =~= seq![None]);
    while i < n
        invariant
            lim <= b@.len(),
            bs == b@,
            f == entry_end_f(bs, lim as int),
            n as int == entry_count(bs, pos as int),
            start == pos + 2,
            fits(pos as int, 2, lim as int),
            0 <= i <= n,
            q <= lim,
            items_end(start as int, i as int, f) == Some(q as int),
            out@.len() == slot(bs, start as int, lim as int, i as int),
            out@.len() <= 1 + 2 * (i as int),
            out@[0] == Type::Nop,
            pool_prefix(bs, start as int, lim as int, i as int, out@),
            utf8_table(out@) == names_upto(bs, start as int, lim as int, i as int),
        decreases n - i,
    {
        let ghost old_out = out@;
        match cp_entry(b, q, lim) {
            Ok((v, e)) => {
                let wide = matches!(v, Type::Long { .. } | Type::Double { .. });
                let ghost gv = v;
                out.push(v);
                if wide {
                    out.push(Type::Nop);
                }
                proof {
                    lemma_pool_step(bs, start as int, lim as int, i as int, q as int, gv, old_out, out@);
                }
                q = e;
                i = i + 1;
            },
            Err(err) => {
                proof {
                    lemma_items_fail(start as int, i as int + 1, n as int, f);
                }
                return Err(err);
            },
        }
    }
    Ok((out, q))
}

/// The bytes of the `Utf8` entry in slot `idx`, if that slot holds one.
pub open spec fn utf8_at(cp: Seq<Type>, idx: int) -> Option<Seq<u8>> {
    name_at(utf8_table(cp), idx)
}

/// The bytes of `v` where it is a `Utf8` entry.
pub open spec fn utf8_of(v: Type) -> Option<Seq<u8>> {
    match v {
        Type::Utf8 { bytes } => Some(bytes@),
        _ => None,
    }
}

/// The pool seen through its `Utf8` entries: what later parts of a class file
/// look names up in.
pub open spec fn utf8_table(cp: Seq<Type>) -> Seq<Option<Seq<u8>>> {
    Seq::new(cp.len(), |i: int| utf8_of(cp[i]))
}

/// The name that slot `idx` of a name table holds.
pub open spec fn name_at(names: Seq<Option<Seq<u8>>>, idx: int) -> Option<Seq<u8>> {
    if 0 <= idx < names.len() {
        names[idx]
    } else {
        None
    }
}

/// The bytes of the `Utf8` entry that starts at `q`.
pub open spec fn entry_name(b: Seq<u8>, q: int) -> Option<Seq<u8>> {
    if b[q] == 1 {
        Some(b.subrange(q + 3, q + 3 + be16(b, q + 1)))
    } else {
        None
    }
}

/// The name table of the slots that the first `k` entries from `p` fill.
pub open spec fn names_upto(b: Seq<u8>, p: int, lim: int, k: int) -> Seq<Option<Seq<u8>>>
    decreases k,
{
    if k <= 0 {
        seq![None]
    } else {
        let prev = names_upto(b, p, lim, k - 1);
        match items_end(p, k - 1, entry_end_f(b, lim)) {
            Some(q) => if is_wide(b, q) {
                prev.push(entry_name(b, q)).push(None)
            } else {
                prev.push(entry_name(b, q))
            },
            None => prev,
        }
    }
}

/// The name table of the pool whose count stands at `p`.
pub open spec fn pool_names(b: Seq<u8>, p: int, lim: int) -> Seq<Option<Seq<u8>>> {
    names_upto(b, p + 2, lim, entry_count(b, p))
}

/// The name bytes of the `Class` entry in slot `idx`, if that slot holds one
/// whose name index leads to a `Utf8` entry.
pub open spec fn class_name_at(cp: Seq<Type>, idx: int) -> Option<Seq<u8>> {
    if 0 <= idx < cp.len() {
        match cp[idx] {
            Type::Class { name_index } => utf8_at(cp, name_index as int),
            _ => None,
        }
    } else {
        None
    }
}

pub fn get_utf8(cp: &Arc<Vec<Type>>, idx: usize) -> (r: Option<Arc<Vec<u8>>>)
    ensures
        match r {
            Some(s) => utf8_at(cp@, idx as int) == Some(s@),
            None => utf8_at(cp@, idx as int) is None,
        },
{
    let v: &Vec<Type> = &**cp;
    if idx < v.len() {
        match &v[idx] {
            Type::Utf8 { bytes } => Some(bytes.clone()),
            _ => None,
        }
    } else {
        None
    }
}

pub fn get_class_name(cp: &Arc<Vec<Type>>, idx: usize) -> (r: Option<Arc<Vec<u8>>>)
    ensures
        match r {
            Some(s) => class_name_at(cp@, idx as int) == Some(s@),
            None => class_name_at(cp@, idx as int) is None,
        },
{
    let v: &Vec<Type> = &**cp;
    if idx < v.len() {
        match &v[idx] {
            Type::Class { name_index } => get_utf8(cp, *name_index as usize),
            _ => None,
        }
    } else {
        None
    }
}

/// How many slots of `s` hold a `Long` or a `Double`.
pub open spec fn wide_entries(s: Seq<Type>) -> int
    decreases s.len(),
{
    if s.len() == 0 {
        0
    } else {
        wide_entries(s.drop_last()) + if s.last() is Long || s.last() is Double {
            1int
        } else {
            0int
        }
    }
}

proof fn lemma_rel_wide(b: Seq<u8>, q: int, v: Type)
    requires
        cp_entry_rel(b, q, v),
    ensures
        is_wide(b, q) <==> (v is Long || v is Double),
{
    reveal(cp_entry_rel);
}

proof fn lemma_wide_prefix(b: Seq<u8>, p: int, lim: int, n: int, s: Seq<Type>, k: int)
    requires
        0 <= k <= n,
        pool_prefix(b, p, lim, n, s),
        s.len() == slot(b, p, lim, n),
        s[0] == Type::Nop,
    ensures
        wide_entries(s.subrange(0, slot(b, p, lim, k))) == wides(b, p, lim, k),
    decreases k,
{
    lemma_slot_mono(b, p, lim, k, n);
    if k == 0 {
        let t = s.subrange(0, 1);
        assert(t.drop_last() =~= Seq::<Type>::empty());
        assert(t.last() == Type::Nop);
        assert(wide_entries(Seq::<Type>::empty()) == 0);
        assert(slot(b, p, lim, 0) == 1);
        assert(wide_entries(t) == 0);
    } else {
        lemma_wide_prefix(b, p, lim, n, s, k - 1);
        let f = entry_end_f(b, lim);
        assert(items_end(p, k - 1, f) is Some);
        let q = items_end(p, k - 1, f).unwrap();
        let a = slot(b, p, lim, k - 1);
        lemma_slot_mono(b, p, lim, 0, k - 1);
        lemma_rel_wide(b, q, s[a]);
        let t0 = s.subrange(0, a);
        let t1 = s.subrange(0, a + 1);
        assert(t1.drop_last() =~= t0);
        assert(t1.last() == s[a]);
        assert(wides(b, p, lim, k) == wides(b, p, lim, k - 1) + if is_wide(b, q) { 1int } else { 0int });
        if is_wide(b, q) {
            let t2 = s.subrange(0, a + 2);
            assert(t2.drop_last() =~= t1);
            assert(t2.last() == s[a + 1]);
            assert(s[a + 1] == Type::Nop);
            assert(wide_entries(t1) == wide_entries(t0) + 1);
            assert(wide_entries(t2) == wide_entries(t1));
            assert(slot(b, p, lim, k) == a + 2);
        } else {
            assert(wide_entries(t1) == wide_entries(t0));
            assert(slot(b, p, lim, k) == a + 1);
        }
    }
}

/// A decoded pool keeps slot 0 empty, and has one slot for each entry that
/// the count announces plus one for each `Long` or `Double` among them: with
/// `k` such entries and a count `n` of at least one, `n - 1 + k` slots follow
/// slot 0.
pub proof fn lemma_pool_length(b: Seq<u8>, p: int, lim: int, s: Seq<Type>)
    requires
        pool_rel(b, p, lim, s),
        be16(b, p) >= 1,
    ensures
        s.len() - 1 == be16(b, p) - 1 + wide_entries(s),
        s[0] == Type::Nop,
{
    let n = entry_count(b, p);
    lemma_wide_prefix(b, p + 2, lim, n, s, n);
    assert(s.subrange(0, slot(b, p + 2, lim, n)) =~= s);
}

} // verus!

//! The decoded class, its fields and methods, and the decoder's entry point.
use vstd::prelude::*;
use std::sync::Arc;
use crate::bytes::{DecodeError, fits, be16, read_u16};
use crate::items::{items_end, items_rel, lemma_items_fail, lemma_items_push};
use crate::constant_pool::{Type as CpType, constant_pool, pool_end, pool_rel, pool_names, utf8_table};
use crate::attributes::Type;
use crate::records::{index_end_f, index_rel_f, index_list};
use crate::attribute::{attr_table_end, attr_table_rel, attribute_table};

verus! {

#[derive(Debug, Clone, Copy, PartialEq, Eq, Structural)]
pub struct Version {
    pub minor: u16,
    pub major: u16,
}

#[derive(Debug)]
pub struct FieldInfo {
    pub acc_flags: u16,
    pub name_index: u16,
    pub desc_index: u16,
    pub attrs: Vec<Type>,
}

#[derive(Debug)]
pub struct MethodInfo {
    pub acc_flags: u16,
    pub name_index: u16,
    pub desc_index: u16,
    pub attrs: Vec<Type>,
}

/// A decoded class file. The pool is shared, and nothing in it changes once
/// decoded.
#[derive(Debug)]
pub struct ClassFile {
    pub version: Version,
    pub cp: Arc<Vec<CpType>>,
    pub acc_flags: u16,
    pub this_class: u16,
    pub super_class: u16,
    pub interfaces: Vec<u16>,
    pub fields: Vec<FieldInfo>,
    pub methods: Vec<MethodInfo>,
    pub attrs: Vec<Type>,
}

/// Where a field or method record that starts at `p` ends: flags, name and
/// descriptor indices, then an attribute table.
pub open spec fn member_end(b: Seq<u8>, p: int, lim: int, cp: Seq<Option<Seq<u8>>>) -> Option<int> {
    if fits(p, 6, lim) {
        attr_table_end(b, p + 6, lim, cp)
    } else {
        None
    }
}

pub open spec fn field_rel(b: Seq<u8>, p: int, lim: int, cp: Seq<Option<Seq<u8>>>, v: FieldInfo) -> bool {
    v.acc_flags == be16(b, p) && v.name_index == be16(b, p + 2) && v.desc_index == be16(b, p + 4)
        && attr_table_rel(b, p + 6, lim, cp, v.attrs@)
}

pub open spec fn method_rel(b: Seq<u8>, p: int, lim: int, cp: Seq<Option<Seq<u8>>>, v: MethodInfo) -> bool {
    v.acc_flags == be16(b, p) && v.name_index == be16(b, p + 2) && v.desc_index == be16(b, p + 4)
        && attr_table_rel(b, p + 6, lim, cp, v.attrs@)
}

/// Decodes one field record.
pub fn field(b: &[u8], pos: usize, lim: usize, cp: &Arc<Vec<CpType>>) -> (r: Result<(FieldInfo, usize), DecodeError>)
    requires
        lim <= b@.len(),
    ensures
        match r {
            Ok((v, e)) => member_end(b@, pos as int, lim as int, utf8_table(cp@)) == Some(e as int)
                && field_rel(b@, pos as int, lim as int, utf8_table(cp@), v) && pos < e <= lim,
            Err(_) => member_end(b@, pos as int, lim as int, utf8_table(cp@)) is None,
        },
{
    let acc_flags = read_u16(b, pos, lim)?;
    let name_index = read_u16(b, pos + 2, lim)?;
    let desc_index = read_u16(b, pos + 4, lim)?;
    let (attrs, e) = attribute_table(b, pos + 6, lim, cp)?;
    Ok((FieldInfo { acc_flags, name_index, desc_index, attrs }, e))
}

/// Where one item of this kind that starts at a given position ends.
pub open spec fn field_end_f(b: Seq<u8>, lim: int, cp: Seq<Option<Seq<u8>>>) -> spec_fn(int) -> Option<int> {
    |q: int| member_end(b, q, lim, cp)
}

/// What one item of this kind is, given where it starts.
pub open spec fn field_rel_f(b: Seq<u8>, lim: int, cp: Seq<Option<Seq<u8>>>) -> spec_fn(int, FieldInfo) -> bool {
    |q: int, v: FieldInfo| field_rel(b, q, lim, cp, v)
}

/// Decodes `n` items of this kind laid end to end.
pub fn field_list(b: &[u8], pos: usize, lim: usize, cp: &Arc<Vec<CpType>>, n: usize) -> (r: Result<(Vec<FieldInfo>, usize), DecodeError>)
    requires
        lim <= b@.len(),
        pos <= lim,
    ensures
        match r {
            Ok((s, e)) => items_end(pos as int, n as int, field_end_f(b@, lim as int, utf8_table(cp@))) == Some(e as int)
                && s@.len() == n && items_rel(pos as int, s@, field_end_f(b@, lim as int, utf8_table(cp@)), field_rel_f(b@, lim as int, utf8_table(cp@)))
                && pos <= e <= lim,
            Err(_) => items_end(pos as int, n as int, field_end_f(b@, lim as int, utf8_table(cp@))) is None,
        },
{
    let ghost f = field_end_f(b@, lim as int, utf8_table(cp@));
    let ghost g = field_rel_f(b@, lim as int, utf8_table(cp@));
    let mut out: Vec<FieldInfo> = Vec::new();
    let mut q = pos;
    let mut i: usize = 0;
    while i < n
        invariant
            lim <= b@.len(),
            pos <= q <= lim,
            0 <= i <= n,
            out@.len() == i,
            f == field_end_f(b@, lim as int, utf8_table(cp@)),
            g == field_rel_f(b@, lim as int, utf8_table(cp@)),
            items_end(pos as int, i as int, f) == Some(q as int),
            items_rel(pos as int, out@, f, g),
        decreases n - i,
    {
        match field(b, q, lim, cp) {
            Ok((v, e)) => {
                proof {
                    lemma_items_push(pos as int, out@, v, f, g);
                }
                out.push(v);
                q = e;
                i += 1;
            },
            Err(err) => {
                proof {
                    lemma_items_fail(pos as int, i as int + 1, n as int, f);
                }
                return Err(err);
            },
        }
    }
    Ok((out, q))
}

/// Decodes one method record.
pub fn method(b: &[u8], pos: usize, lim: usize, cp: &Arc<Vec<CpType>>) -> (r: Result<(MethodInfo, usize), DecodeError>)
    requires
        lim <= b@.len(),
    ensures
        match r {
            Ok((v, e)) => member_end(b@, pos as int, lim as int, utf8_table(cp@)) == Some(e as int)
                && method_rel(b@, pos as int, lim as int, utf8_table(cp@), v) && pos < e <= lim,
            Err(_) => member_end(b@, pos as int, lim as int, utf8_table(cp@)) is None,
        },
{
    let acc_flags = read_u16(b, pos, lim)?;
    let name_index = read_u16(b, pos + 2, lim)?;
    let desc_index = read_u16(b, pos + 4, lim)?;
    let (attrs, e) = attribute_table(b, pos + 6, lim, cp)?;
    Ok((MethodInfo { acc_flags, name_index, desc_index, attrs }, e))
}

/// Where one item of this kind that starts at a given position ends.
pub open spec fn method_end_f(b: Seq<u8>, lim: int, cp: Seq<Option<Seq<u8>>>) -> spec_fn(int) -> Option<int> {
    |q: int| member_end(b, q, lim, cp)
}

/// What one item of this kind is, given where it starts.
pub open spec fn method_rel_f(b: Seq<u8>, lim: int, cp: Seq<Option<Seq<u8>>>) -> spec_fn(int, MethodInfo) -> bool {
    |q: int, v: MethodInfo| method_rel(b, q, lim, cp, v)
}

/// Decodes `n` items of this kind laid end to end.
pub fn method_list(b: &[u8], pos: usize, lim: usize, cp: &Arc<Vec<CpType>>, n: usize) -> (r: Result<(Vec<MethodInfo>, usize), DecodeError>)
    requires
        lim <= b@.len(),
        pos <= lim,
    ensures
        match r {
            Ok((s, e)) => items_end(pos as int, n as int, method_end_f(b@, lim as int, utf8_table(cp@))) == Some(e as int)
                && s@.len() == n && items_rel(pos as int, s@, method_end_f(b@, lim as int, utf8_table(cp@)), method_rel_f(b@, lim as int, utf8_table(cp@)))
                && pos <= e <= lim,
            Err(_) => items_end(pos as int, n as int, method_end_f(b@, lim as int, utf8_table(cp@))) is None,
        },
{
    let ghost f = method_end_f(b@, lim as int, utf8_table(cp@));
    let ghost g = method_rel_f(b@, lim as int, utf8_table(cp@));
    let mut out: Vec<MethodInfo> = Vec::new();
    let mut q = pos;
    let mut i: usize = 0;
    while i < n
        invariant
            lim <= b@.len(),
            pos <= q <= lim,
            0 <= i <= n,
            out@.len() == i,
            f == method_end_f(b@, lim as int, utf8_table(cp@)),
            g == method_rel_f(b@, lim as int, utf8_table(cp@)),
            items_end(pos as int, i as int, f) == Some(q as int),
            items_rel(pos as int, out@, f, g),
        decreases n - i,
    {
        match method(b, q, lim, cp) {
            Ok((v, e)) => {
                proof {
                    lemma_items_push(pos as int, out@, v, f, g);
                }
                out.push(v);
                q = e;
                i += 1;
            },
            Err(err) => {
                proof {
                    lemma_items_fail(pos as int, i as int + 1, n as int, f);
                }
                return Err(err);
            },
        }
    }
    Ok((out, q))
}

/// The stream starts with the class-file magic number `CAFEBABE`.
pub open spec fn magic_ok(b: Seq<u8>) -> bool {
    b.len() >= 4 && b[0] == 0xCA && b[1] == 0xFE && b[2] == 0xBA && b[3] == 0xBE
}

/// Where the parts after the pool end, the pool ending at `c` and naming
/// `cp`: flags, this and super indices, interfaces, fields, methods, and the
/// class's attribute table.
pub open spec fn rest_end(b: Seq<u8>, c: int, lim: int, cp: Seq<Option<Seq<u8>>>) -> Option<int> {
    if !fits(c, 8, lim) {
        None
    } else {
        match items_end(c + 8, be16(b, c + 6) as int, index_end_f(b, lim)) {
            None => None,
            Some(i1) => if !fits(i1, 2, lim) {
                None
            } else {
                match items_end(i1 + 2, be16(b, i1) as int, field_end_f(b, lim, cp)) {
                    None => None,
                    Some(f1) => if !fits(f1, 2, lim) {
                        None
                    } else {
                        match items_end(f1 + 2, be16(b, f1) as int, method_end_f(b, lim, cp)) {
                            None => None,
                            Some(m1) => attr_table_end(b, m1, lim, cp),
                        }
                    },
                }
            },
        }
    }
}

/// Where a class file ends, if it decodes: magic, version, pool, then the rest.
pub open spec fn class_end(b: Seq<u8>) -> Option<int> {
    if !magic_ok(b) || !fits(4, 4, b.len() as int) {
        None
    } else {
        match pool_end(b, 8, b.len() as int) {
            Some(c) => rest_end(b, c, b.len() as int, pool_names(b, 8, b.len() as int)),
            None => None,
        }
    }
}

/// `cf` is the class that `b` encodes.
pub open spec fn class_rel(b: Seq<u8>, cf: ClassFile) -> bool {
    let lim = b.len() as int;
    let cp = utf8_table(cf.cp@);
    &&& cf.version == Version { minor: be16(b, 4), major: be16(b, 6) }
    &&& pool_rel(b, 8, lim, cf.cp@)
    &&& cp == pool_names(b, 8, lim)
    &&& pool_end(b, 8, lim) matches Some(c)
    &&& cf.acc_flags == be16(b, c)
    &&& cf.this_class == be16(b, c + 2)
    &&& cf.super_class == be16(b, c + 4)
    &&& cf.interfaces@.len() == be16(b, c + 6)
    &&& items_rel(c + 8, cf.interfaces@, index_end_f(b, lim), index_rel_f(b, lim))
    &&& items_end(c + 8, be16(b, c + 6) as int, index_end_f(b, lim)) matches Some(i1)
    &&& cf.fields@.len() == be16(b, i1)
    &&& items_rel(i1 + 2, cf.fields@, field_end_f(b, lim, cp), field_rel_f(b, lim, cp))
    &&& items_end(i1 + 2, be16(b, i1) as int, field_end_f(b, lim, cp)) matches Some(f1)
    &&& cf.methods@.len() == be16(b, f1)
    &&& items_rel(f1 + 2, cf.methods@, method_end_f(b, lim, cp), method_rel_f(b, lim, cp))
    &&& items_end(f1 + 2, be16(b, f1) as int, method_end_f(b, lim, cp)) matches Some(m1)
    &&& attr_table_rel(b, m1, lim, cp, cf.attrs@)
}

/// Decodes a class file. A stream without the magic number fails with
/// `BadMagic`; any other stream that does not decode fails with `Malformed`.
/// Bytes after the class's attribute table are ignored.
pub fn parse(input: &[u8]) -> (r: Result<ClassFile, DecodeError>)
    ensures
        !magic_ok(input@) ==> r == Err::<ClassFile, DecodeError>(DecodeError::BadMagic),
        magic_ok(input@) ==> (r is Ok <==> class_end(input@) is Some),
        magic_ok(input@) ==> (r is Err ==> r == Err::<ClassFile, DecodeError>(DecodeError::Malformed)),
        r matches Ok(cf) ==> class_rel(input@, cf),
{
    let b = input;
    let lim = b.len();
    if lim < 4 || b[0] != 0xCA || b[1] != 0xFE || b[2] != 0xBA || b[3] != 0xBE {
        return Err(DecodeError::BadMagic);
    }
    let minor = match read_u16(b, 4, lim) {
        Ok(x) => x,
        Err(_) => return Err(DecodeError::Malformed),
    };
    let major = match read_u16(b, 6, lim) {
        Ok(x) => x,
        Err(_) => return Err(DecodeError::Malformed),
    };
    let (pool, c) = match constant_pool(b, 8, lim) {
        Ok(x) => x,
        Err(_) => return Err(DecodeError::Malformed),
    };
    let ghost pool_view = pool@;
    let cp = Arc::new(pool);
    assert(cp@ == pool_view);
    assert(utf8_table(cp@) == pool_names(b@, 8, lim as int));
    let acc_flags = match read_u16(b, c, lim) {
        Ok(x) => x,
        Err(_) => return Err(DecodeError::Malformed),
    };
    let this_class = match read_u16(b, c + 2, lim) {
        Ok(x) => x,
        Err(_) => return Err(DecodeError::Malformed),
    };
    let super_class = match read_u16(b, c + 4, lim) {
        Ok(x) => x,
        Err(_) => return Err(DecodeError::Malformed),
    };
    let interface_count = match read_u16(b, c + 6, lim) {
        Ok(x) => x,
        Err(_) => return Err(DecodeError::Malformed),
    };
    let (interfaces, i1) = match index_list(b, c + 8, lim, interface_count as usize) {
        Ok(x) => x,
        Err(_) => return Err(DecodeError::Malformed),
    };
    let field_count = match read_u16(b, i1, lim) {
        Ok(x) => x,
        Err(_) => return Err(DecodeError::Malformed),
    };
    let (fields, f1) = match field_list(b, i1 + 2, lim, &cp, field_count as usize) {
        Ok(x) => x,
        Err(_) => return Err(DecodeError::Malformed),
    };
    let method_count = match read_u16(b, f1, lim) {
        Ok(x) => x,
        Err(_) => return Err(DecodeError::Malformed),
    };
    let (methods, m1) = match method_list(b, f1 + 2, lim, &cp, method_count as usize) {
        Ok(x) => x,
        Err(_) => return Err(DecodeError::Malformed),
    };
    let (attrs, _) = match attribute_table(b, m1, lim, &cp) {
        Ok(x) => x,
        Err(_) => return Err(DecodeError::Malformed),
    };
    Ok(ClassFile {
        version: Version { minor, major },
        cp,
        acc_flags,
        this_class,
        super_class,
        interfaces,
        fields,
        methods,
        attrs,
    })
}

} // verus!

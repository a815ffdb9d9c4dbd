use jvm::attributes::{ElementValueTag, ElementValueType, StackMapFrame, Tag, TargetInfo, Type as Attr, VerificationTypeInfo};
use jvm::bytes::DecodeError;
use jvm::class_file::parse;
use jvm::constant_pool::{get_class_name, get_utf8, Tag as CpTag, Type as Cp};
use jvm::stack_map::stack_map_frame;

fn u16be(v: u16) -> [u8; 2] {
    v.to_be_bytes()
}

fn utf8(s: &str) -> Vec<u8> {
    let mut v = vec![1u8];
    v.extend_from_slice(&u16be(s.len() as u16));
    v.extend_from_slice(s.as_bytes());
    v
}

fn class_ref(i: u16) -> Vec<u8> {
    let mut v = vec![7u8];
    v.extend_from_slice(&u16be(i));
    v
}

fn attr(name: u16, body: &[u8]) -> Vec<u8> {
    let mut v = Vec::new();
    v.extend_from_slice(&u16be(name));
    v.extend_from_slice(&(body.len() as u32).to_be_bytes());
    v.extend_from_slice(body);
    v
}

/// A class with the given pool entries and class-level attributes, no fields
/// and no methods.
fn class_bytes(pool: &[Vec<u8>], count: u16, attrs: &[Vec<u8>]) -> Vec<u8> {
    let mut v = vec![0xCA, 0xFE, 0xBA, 0xBE, 0, 3, 0, 52];
    v.extend_from_slice(&u16be(count));
    for e in pool {
        v.extend_from_slice(e);
    }
    v.extend_from_slice(&u16be(0x0021));
    v.extend_from_slice(&u16be(2));
    v.extend_from_slice(&u16be(4));
    v.extend_from_slice(&u16be(0));
    v.extend_from_slice(&u16be(0));
    v.extend_from_slice(&u16be(0));
    v.extend_from_slice(&u16be(attrs.len() as u16));
    for a in attrs {
        v.extend_from_slice(a);
    }
    v
}

fn hello_pool() -> Vec<Vec<u8>> {
    vec![
        utf8("HelloWorld"),
        class_ref(1),
        utf8("java/lang/Object"),
        class_ref(3),
        utf8("SourceFile"),
        utf8("HelloWorld.java"),
    ]
}

#[test]
fn it_works() {
    assert_eq!(2 + 2, 4);
}

#[test]
fn decodes_minimal_class() {
    let bytes = class_bytes(&[], 1, &[]);
    let cf = parse(&bytes).unwrap();
    assert_eq!(cf.version.minor, 3);
    assert_eq!(cf.version.major, 52);
    assert_eq!(cf.acc_flags, 0x0021);
    assert_eq!(cf.this_class, 2);
    assert_eq!(cf.super_class, 4);
    assert_eq!(cf.cp.len(), 1);
    assert!(matches!(cf.cp[0], Cp::Nop));
    assert!(cf.interfaces.is_empty() && cf.fields.is_empty() && cf.methods.is_empty());
    assert!(cf.attrs.is_empty());
}

#[test]
fn corrupted_magic_is_bad_magic() {
    let mut bytes = class_bytes(&[], 1, &[]);
    bytes[0] = 0xCB;
    assert!(matches!(parse(&bytes), Err(DecodeError::BadMagic)));
    assert!(matches!(parse(&[0xCA, 0xFE]), Err(DecodeError::BadMagic)));
}

#[test]
fn truncated_stream_is_malformed() {
    let bytes = class_bytes(&hello_pool(), 7, &[]);
    for cut in 4..bytes.len() {
        assert!(matches!(parse(&bytes[..cut]), Err(DecodeError::Malformed)), "cut at {}", cut);
    }
    assert!(parse(&bytes).is_ok());
}

#[test]
fn unknown_pool_tag_is_malformed() {
    let bytes = class_bytes(&[vec![2u8, 0, 0]], 2, &[]);
    assert!(matches!(parse(&bytes), Err(DecodeError::Malformed)));
}

#[test]
fn pool_names_resolve() {
    let bytes = class_bytes(&hello_pool(), 7, &[attr(5, &u16be(6))]);
    let cf = parse(&bytes).unwrap();
    assert_eq!(cf.cp.len(), 7);
    assert_eq!(get_utf8(&cf.cp, 1).unwrap().as_slice(), b"HelloWorld");
    assert_eq!(get_class_name(&cf.cp, 2).unwrap().as_slice(), b"HelloWorld");
    assert_eq!(get_class_name(&cf.cp, 4).unwrap().as_slice(), b"java/lang/Object");
    assert!(get_utf8(&cf.cp, 2).is_none());
    assert!(get_class_name(&cf.cp, 1).is_none());
    assert!(get_utf8(&cf.cp, 0).is_none());
    assert!(get_utf8(&cf.cp, 99).is_none());
    assert_eq!(cf.attrs.len(), 1);
    assert!(matches!(cf.attrs[0], Attr::SourceFile { source_file_index: 6 }));
}

#[test]
fn long_and_double_take_two_slots() {
    let mut long = vec![5u8];
    long.extend_from_slice(&[0, 0, 0, 0, 0, 0, 0, 7]);
    let mut double = vec![6u8];
    double.extend_from_slice(&[0x40, 0x09, 0x21, 0xFB, 0x54, 0x44, 0x2D, 0x18]);
    let pool = vec![long, utf8("x"), double, vec![3u8, 0, 0, 0, 42]];
    let bytes = class_bytes(&pool, 5, &[]);
    let cf = parse(&bytes).unwrap();
    // four entries, two of them wide: 5 - 1 + 2 slots after slot 0
    assert_eq!(cf.cp.len() - 1, 5 - 1 + 2);
    assert!(matches!(cf.cp[0], Cp::Nop));
    assert!(matches!(cf.cp[1], Cp::Long { v: [0, 0, 0, 0, 0, 0, 0, 7] }));
    assert!(matches!(cf.cp[2], Cp::Nop));
    assert!(matches!(cf.cp[3], Cp::Utf8 { .. }));
    assert!(matches!(cf.cp[4], Cp::Double { .. }));
    assert!(matches!(cf.cp[5], Cp::Nop));
    assert!(matches!(cf.cp[6], Cp::Integer { v: [0, 0, 0, 42] }));
}

#[test]
fn unknown_attribute_is_skipped_by_its_length() {
    let mut pool = hello_pool();
    pool.push(utf8("Vendor"));
    let bytes = class_bytes(&pool, 8, &[attr(7, &[9, 9, 9]), attr(5, &u16be(6))]);
    let cf = parse(&bytes).unwrap();
    assert_eq!(cf.attrs.len(), 2);
    assert!(matches!(cf.attrs[0], Attr::Unknown));
    assert!(matches!(cf.attrs[1], Attr::SourceFile { source_file_index: 6 }));
}

#[test]
fn known_attribute_advances_by_declared_length() {
    // a SourceFile body with two bytes more than its grammar reads
    let bytes = class_bytes(&hello_pool(), 7, &[attr(5, &[0, 6, 0xEE, 0xEE]), attr(5, &u16be(1))]);
    let cf = parse(&bytes).unwrap();
    assert_eq!(cf.attrs.len(), 2);
    assert!(matches!(cf.attrs[0], Attr::SourceFile { source_file_index: 6 }));
    assert!(matches!(cf.attrs[1], Attr::SourceFile { source_file_index: 1 }));
}

#[test]
fn attribute_body_past_its_length_is_malformed() {
    // a SourceFile whose declared length is too short for its grammar
    let bytes = class_bytes(&hello_pool(), 7, &[attr(5, &[0])]);
    assert!(matches!(parse(&bytes), Err(DecodeError::Malformed)));
}

#[test]
fn unresolvable_attribute_name_is_malformed() {
    let bytes = class_bytes(&hello_pool(), 7, &[attr(2, &u16be(6))]);
    assert!(matches!(parse(&bytes), Err(DecodeError::Malformed)));
}

#[test]
fn attribute_names_select_kinds() {
    assert_eq!(Tag::from(&b"Code"[..]), Tag::Code);
    assert_eq!(Tag::from(&b"StackMapTable"[..]), Tag::StackMapTable);
    assert_eq!(Tag::from(&b"RuntimeInvisibleParameterAnnotations"[..]), Tag::RuntimeInvisibleParameterAnnotations);
    assert_eq!(Tag::from(&b"MethodParameters"[..]), Tag::MethodParameters);
    assert_eq!(Tag::from(&b"Cod"[..]), Tag::Unknown);
    assert_eq!(Tag::from(&b""[..]), Tag::Unknown);
}

fn frame(bytes: &[u8]) -> (StackMapFrame, usize) {
    stack_map_frame(bytes, 0, bytes.len()).unwrap()
}

#[test]
fn stack_map_frame_boundaries() {
    assert!(matches!(frame(&[0]), (StackMapFrame::Same { tag: 0, offset_delta: 0 }, 1)));
    assert!(matches!(frame(&[63]), (StackMapFrame::Same { tag: 63, offset_delta: 63 }, 1)));
    assert!(matches!(
        frame(&[64, 1]),
        (StackMapFrame::SameLocals1StackItem { tag: 64, offset_delta: 0, stack: [VerificationTypeInfo::Integer] }, 2)
    ));
    assert!(matches!(
        frame(&[127, 7, 0, 9]),
        (StackMapFrame::SameLocals1StackItem {
            tag: 127,
            offset_delta: 63,
            stack: [VerificationTypeInfo::Object { cpool_index: 9 }]
        }, 4)
    ));
    assert!(matches!(frame(&[128]), (StackMapFrame::Reserved(128), 1)));
    assert!(matches!(frame(&[246]), (StackMapFrame::Reserved(246), 1)));
    assert!(matches!(
        frame(&[247, 1, 2, 5]),
        (StackMapFrame::SameLocals1StackItem { tag: 247, offset_delta: 0x102, stack: [VerificationTypeInfo::Null] }, 4)
    ));
    assert!(matches!(frame(&[248, 0, 3]), (StackMapFrame::Chop { tag: 248, offset_delta: 3 }, 3)));
    assert!(matches!(frame(&[250, 0, 4]), (StackMapFrame::Chop { tag: 250, offset_delta: 4 }, 3)));
    assert!(matches!(frame(&[251, 1, 0]), (StackMapFrame::SameExtended { tag: 251, offset_delta: 256 }, 3)));
    match frame(&[252, 0, 1, 2]) {
        (StackMapFrame::Append { tag: 252, offset_delta: 1, locals }, 4) => {
            assert!(matches!(locals.as_slice(), [VerificationTypeInfo::Float]));
        }
        other => panic!("{:?}", other),
    }
    match frame(&[254, 0, 1, 0, 3, 8, 0, 5]) {
        (StackMapFrame::Append { tag: 254, offset_delta: 1, locals }, 8) => {
            assert!(matches!(
                locals.as_slice(),
                [VerificationTypeInfo::Top, VerificationTypeInfo::Long, VerificationTypeInfo::Uninitialized { offset: 5 }]
            ));
        }
        other => panic!("{:?}", other),
    }
    match frame(&[255, 0, 2, 0, 1, 6, 0, 2, 4, 1]) {
        (StackMapFrame::Full { tag: 255, offset_delta: 2, locals, stack }, 10) => {
            assert!(matches!(locals.as_slice(), [VerificationTypeInfo::UninitializedThis]));
            assert!(matches!(stack.as_slice(), [VerificationTypeInfo::Double, VerificationTypeInfo::Integer]));
        }
        other => panic!("{:?}", other),
    }
}

#[test]
fn bad_verification_type_is_malformed() {
    assert!(matches!(stack_map_frame(&[64, 9], 0, 2), Err(DecodeError::Malformed)));
    assert!(matches!(stack_map_frame(&[248, 0], 0, 2), Err(DecodeError::Malformed)));
}

#[test]
fn code_attribute_with_nested_stack_map() {
    let mut pool = hello_pool();
    pool.push(utf8("main")); // 7
    pool.push(utf8("()V")); // 8
    pool.push(utf8("Code")); // 9
    pool.push(utf8("StackMapTable")); // 10
    let smt = attr(10, &[0, 2, 0, 251, 0, 7]);
    let mut code = Vec::new();
    code.extend_from_slice(&u16be(2));
    code.extend_from_slice(&u16be(1));
    code.extend_from_slice(&3u32.to_be_bytes());
    code.extend_from_slice(&[0x2A, 0x57, 0xB1]);
    code.extend_from_slice(&u16be(1));
    code.extend_from_slice(&[0, 0, 0, 2, 0, 2, 0, 4]);
    code.extend_from_slice(&u16be(1));
    code.extend_from_slice(&smt);
    let mut bytes = vec![0xCA, 0xFE, 0xBA, 0xBE, 0, 0, 0, 52];
    bytes.extend_from_slice(&u16be(11));
    for e in &pool {
        bytes.extend_from_slice(e);
    }
    bytes.extend_from_slice(&[0, 0x21, 0, 2, 0, 4, 0, 0, 0, 0]);
    bytes.extend_from_slice(&u16be(1));
    bytes.extend_from_slice(&[0, 9, 0, 7, 0, 8]);
    bytes.extend_from_slice(&u16be(1));
    bytes.extend_from_slice(&attr(9, &code));
    bytes.extend_from_slice(&u16be(0));
    let cf = parse(&bytes).unwrap();
    assert_eq!(cf.methods.len(), 1);
    let m = &cf.methods[0];
    assert_eq!((m.acc_flags, m.name_index, m.desc_index), (9, 7, 8));
    match &m.attrs[0] {
        Attr::Code(c) => {
            assert_eq!((c.max_stack, c.max_locals), (2, 1));
            assert_eq!(c.code.as_slice(), &[0x2A, 0x57, 0xB1]);
            assert_eq!(c.exceptions.len(), 1);
            assert_eq!(c.exceptions[0].handler_pc, 2);
            assert_eq!(c.exceptions[0].catch_type, 4);
            match &c.attrs[0] {
                Attr::StackMapTable { entries } => {
                    assert_eq!(entries.len(), 2);
                    assert!(matches!(entries[0], StackMapFrame::Same { tag: 0, offset_delta: 0 }));
                    assert!(matches!(entries[1], StackMapFrame::SameExtended { tag: 251, offset_delta: 7 }));
                }
                other => panic!("{:?}", other),
            }
        }
        other => panic!("{:?}", other),
    }
}

#[test]
fn annotations_nest_and_keep_raw_bytes() {
    let mut pool = hello_pool();
    pool.push(utf8("RuntimeVisibleAnnotations")); // 7
    pool.push(utf8("Lcom/Ann;")); // 8
    pool.push(utf8("value")); // 9
    // one annotation of type 8 with one pair: value = [ 'I' #1, '@' (type 8, no pairs), 'x' ]
    let mut body = Vec::new();
    body.extend_from_slice(&u16be(1));
    body.extend_from_slice(&[0, 8, 0, 1, 0, 9]);
    body.extend_from_slice(&[b'[', 0, 3]);
    body.extend_from_slice(&[b'I', 0, 1]);
    body.extend_from_slice(&[b'@', 0, 8, 0, 0]);
    body.push(b'x');
    let bytes = class_bytes(&pool, 10, &[attr(7, &body)]);
    let cf = parse(&bytes).unwrap();
    match &cf.attrs[0] {
        Attr::RuntimeVisibleAnnotations { raw, annotations } => {
            assert_eq!(raw.as_slice(), body.as_slice());
            assert_eq!(annotations.len(), 1);
            assert_eq!(annotations[0].type_descriptor.as_slice(), b"Lcom/Ann;");
            assert_eq!(annotations[0].pairs.len(), 1);
            assert_eq!(annotations[0].pairs[0].name_index, 9);
            match &annotations[0].pairs[0].value {
                ElementValueType::Array { values } => {
                    assert_eq!(values.len(), 3);
                    assert!(matches!(values[0], ElementValueType::Int { val_index: 1 }));
                    match &values[1] {
                        ElementValueType::Annotation(a) => {
                            assert_eq!(a.value.type_descriptor.as_slice(), b"Lcom/Ann;");
                            assert!(a.value.pairs.is_empty());
                        }
                        other => panic!("{:?}", other),
                    }
                    assert!(matches!(values[2], ElementValueType::Unknown));
                }
                other => panic!("{:?}", other),
            }
        }
        other => panic!("{:?}", other),
    }
}

#[test]
fn annotation_type_must_name_utf8() {
    let mut pool = hello_pool();
    pool.push(utf8("RuntimeVisibleAnnotations")); // 7
    let body = [0, 1, 0, 2, 0, 0];
    let bytes = class_bytes(&pool, 8, &[attr(7, &body)]);
    assert!(matches!(parse(&bytes), Err(DecodeError::Malformed)));
}

#[test]
fn type_annotation_targets() {
    let mut pool = hello_pool();
    pool.push(utf8("RuntimeInvisibleTypeAnnotations")); // 7
    let mut body = Vec::new();
    body.extend_from_slice(&u16be(2));
    // local variable target with one table row, a one-step path, type 1, no pairs
    body.extend_from_slice(&[0x40, 0, 1, 0, 1, 0, 2, 0, 3]);
    body.extend_from_slice(&[1, 3, 0]);
    body.extend_from_slice(&[0, 1, 0, 0]);
    // type argument target, empty path
    body.extend_from_slice(&[0x4B, 0, 9, 2]);
    body.push(0);
    body.extend_from_slice(&[0, 3, 0, 0]);
    let bytes = class_bytes(&pool, 8, &[attr(7, &body)]);
    let cf = parse(&bytes).unwrap();
    match &cf.attrs[0] {
        Attr::RuntimeInvisibleTypeAnnotations { annotations, .. } => {
            assert_eq!(annotations.len(), 2);
            match &annotations[0].target_info {
                TargetInfo::LocalVar { table } => {
                    assert_eq!(table.len(), 1);
                    assert_eq!((table[0].start_pc, table[0].length, table[0].index), (1, 2, 3));
                }
                other => panic!("{:?}", other),
            }
            assert_eq!(annotations[0].target_path.len(), 1);
            assert_eq!(annotations[0].target_path[0].type_path_kind, 3);
            assert_eq!(annotations[0].type_index, 1);
            assert!(matches!(
                annotations[1].target_info,
                TargetInfo::TypeArgument { offset: 9, type_argument_index: 2 }
            ));
            assert_eq!(annotations[1].type_index, 3);
        }
        other => panic!("{:?}", other),
    }
    // a target type that names no target
    let bad = class_bytes(&pool, 8, &[attr(7, &[0, 1, 0x30, 0, 0, 0, 0, 0])]);
    assert!(matches!(parse(&bad), Err(DecodeError::Malformed)));
}

#[test]
fn element_value_tags() {
    assert_eq!(ElementValueTag::from(b'B'), ElementValueTag::Byte);
    assert_eq!(ElementValueTag::from(b's'), ElementValueTag::String);
    assert_eq!(ElementValueTag::from(b'e'), ElementValueTag::Enum);
    assert_eq!(ElementValueTag::from(b'@'), ElementValueTag::Annotation);
    assert_eq!(ElementValueTag::from(b'['), ElementValueTag::Array);
    assert_eq!(ElementValueTag::from(b'x'), ElementValueTag::Unknown);
}

#[test]
fn constant_pool_tags() {
    assert_eq!(CpTag::from_byte(1), Some(CpTag::Utf8));
    assert_eq!(CpTag::from_byte(5), Some(CpTag::Long));
    assert_eq!(CpTag::from_byte(18), Some(CpTag::InvokeDynamic));
    assert_eq!(CpTag::from_byte(2), None);
    assert_eq!(CpTag::from_byte(17), None);
}

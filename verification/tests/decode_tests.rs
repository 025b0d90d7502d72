use classfile::access_flags::AccessFlags;
use classfile::attribute::{Attribute, AttributeInfo, LineNumber, resolve_attributes};
use classfile::class::Class;
use classfile::code::{Instruction, decode_code};
use classfile::constant_pool::ConstantPoolInfo;
use classfile::error::DecodeError;
use classfile::reader::Reader;

fn utf8_entry(s: &str) -> Vec<u8> {
    let mut v = vec![1u8];
    v.extend((s.len() as u16).to_be_bytes());
    v.extend(s.as_bytes());
    v
}

fn class_entry(name_index: u16) -> Vec<u8> {
    let mut v = vec![7u8];
    v.extend(name_index.to_be_bytes());
    v
}

fn string_entry(string_index: u16) -> Vec<u8> {
    let mut v = vec![8u8];
    v.extend(string_index.to_be_bytes());
    v
}

fn attr_bytes(name_index: u16, payload: &[u8]) -> Vec<u8> {
    let mut v = Vec::new();
    v.extend(name_index.to_be_bytes());
    v.extend((payload.len() as u32).to_be_bytes());
    v.extend(payload);
    v
}

fn method_bytes(flags: u16, name_index: u16, descriptor_index: u16, attrs: &[Vec<u8>]) -> Vec<u8> {
    let mut v = Vec::new();
    v.extend(flags.to_be_bytes());
    v.extend(name_index.to_be_bytes());
    v.extend(descriptor_index.to_be_bytes());
    v.extend((attrs.len() as u16).to_be_bytes());
    for a in attrs {
        v.extend(a);
    }
    v
}

fn code_payload(max_stack: u16, max_locals: u16, code: &[u8], nested: &[Vec<u8>]) -> Vec<u8> {
    let mut v = Vec::new();
    v.extend(max_stack.to_be_bytes());
    v.extend(max_locals.to_be_bytes());
    v.extend((code.len() as u32).to_be_bytes());
    v.extend(code);
    v.extend(0u16.to_be_bytes());
    v.extend((nested.len() as u16).to_be_bytes());
    for a in nested {
        v.extend(a);
    }
    v
}

fn container(pool: &[Vec<u8>], this_class: u16, methods: &[Vec<u8>]) -> Vec<u8> {
    let mut v = vec![0xca, 0xfe, 0xba, 0xbe];
    v.extend(0u16.to_be_bytes());
    v.extend(55u16.to_be_bytes());
    v.extend((pool.len() as u16 + 1).to_be_bytes());
    for e in pool {
        v.extend(e);
    }
    v.extend(0x0021u16.to_be_bytes());
    v.extend(this_class.to_be_bytes());
    v.extend(0u16.to_be_bytes());
    v.extend(0u16.to_be_bytes());
    v.extend(0u16.to_be_bytes());
    v.extend((methods.len() as u16).to_be_bytes());
    for m in methods {
        v.extend(m);
    }
    v.extend(0u16.to_be_bytes());
    v
}

#[test]
fn reader_reads_big_endian() {
    let mut r = Reader::new(vec![0x12, 0x34, 0x56, 0x78, 0x9a, 0xbc]);
    assert_eq!(r.read_u2(), Ok(0x1234));
    assert_eq!(r.read_u4(), Ok(0x56789abc));
}

#[test]
fn reader_fails_on_short_input() {
    let mut r = Reader::new(vec![0x12]);
    assert_eq!(r.read_u2(), Err(DecodeError::UnexpectedEof));
    assert_eq!(r.read_u1(), Ok(0x12));
    assert_eq!(r.read_u1(), Err(DecodeError::UnexpectedEof));
}

#[test]
fn text_records_decode_utf8() {
    // A two-byte encoded character is valid text, not an error.
    let mut r = Reader::new(vec![1, 0, 3, 0x41, 0xc3, 0xa9]);
    assert_eq!(
        ConstantPoolInfo::from(&mut r),
        Ok(ConstantPoolInfo::Utf8("A\u{e9}".to_string()))
    );
}

#[test]
fn constant_pool_entry_kinds_decode() {
    let mut r = Reader::new(vec![7, 0, 2]);
    assert_eq!(ConstantPoolInfo::from(&mut r), Ok(ConstantPoolInfo::Class { name_index: 2 }));

    let mut r = Reader::new(vec![9, 0, 1, 0, 2]);
    assert_eq!(
        ConstantPoolInfo::from(&mut r),
        Ok(ConstantPoolInfo::FieldRef { class_index: 1, name_and_type_index: 2 })
    );

    let mut r = Reader::new(vec![10, 0, 3, 0, 4]);
    assert_eq!(
        ConstantPoolInfo::from(&mut r),
        Ok(ConstantPoolInfo::MethodRef { class_index: 3, name_and_type_index: 4 })
    );

    let mut r = Reader::new(vec![12, 0, 5, 0, 6]);
    assert_eq!(
        ConstantPoolInfo::from(&mut r),
        Ok(ConstantPoolInfo::NameAndType { name_index: 5, descriptor_index: 6 })
    );

    let mut r = Reader::new(vec![8, 0, 7]);
    assert_eq!(ConstantPoolInfo::from(&mut r), Ok(ConstantPoolInfo::String { string_index: 7 }));

    let mut r = Reader::new(utf8_entry("Foo"));
    assert_eq!(ConstantPoolInfo::from(&mut r), Ok(ConstantPoolInfo::Utf8("Foo".to_string())));
}

#[test]
fn constant_pool_unknown_tag_is_fatal() {
    let mut r = Reader::new(vec![99, 0, 0]);
    assert_eq!(ConstantPoolInfo::from(&mut r), Err(DecodeError::UnknownTag(99)));
}

#[test]
fn constant_pool_invalid_text_encoding_is_fatal() {
    // 0xff can never occur in encoded text.
    let mut r = Reader::new(vec![1, 0, 2, 0x41, 0xff]);
    assert_eq!(ConstantPoolInfo::from(&mut r), Err(DecodeError::InvalidText));
    // A leading byte of a two-byte encoding with its continuation cut off.
    let mut r = Reader::new(vec![1, 0, 1, 0xc3]);
    assert_eq!(ConstantPoolInfo::from(&mut r), Err(DecodeError::InvalidText));
}

#[test]
fn text_record_round_trips_through_lookup() {
    // Decoding a text record and looking it up by its own index yields
    // back the identical character sequence.
    let data = container(&[utf8_entry("Foo"), class_entry(1)], 2, &[]);
    let class = Class::from(data).unwrap();
    assert_eq!(class.constant_pool[0].utf8(), Some("Foo".to_string()));
    assert_eq!(class.constant_pool[1].name(&class.constant_pool), Some("Foo".to_string()));
}

#[test]
fn name_is_none_for_non_class_records() {
    let pool = vec![ConstantPoolInfo::Utf8("Foo".to_string())];
    assert_eq!(pool[0].name(&pool), None);
    assert_eq!(ConstantPoolInfo::String { string_index: 1 }.name(&pool), None);
    // An out-of-range or zero name reference resolves to no name.
    assert_eq!(ConstantPoolInfo::Class { name_index: 0 }.name(&pool), None);
    assert_eq!(ConstantPoolInfo::Class { name_index: 2 }.name(&pool), None);
}

#[test]
fn instructions_decode_with_operands() {
    let mut r = Reader::new(vec![0x00, 0xb1, 0x2a, 0x60, 0x10, 0x2c, 0x12, 0x05]);
    assert_eq!(Instruction::from(&mut r), Ok(Instruction::Nop));
    assert_eq!(Instruction::from(&mut r), Ok(Instruction::Return));
    assert_eq!(Instruction::from(&mut r), Ok(Instruction::ALoad0));
    assert_eq!(Instruction::from(&mut r), Ok(Instruction::IAdd));
    assert_eq!(Instruction::from(&mut r), Ok(Instruction::BiPush(0x2c)));
    assert_eq!(Instruction::from(&mut r), Ok(Instruction::Ldc(5)));

    let mut r = Reader::new(vec![0xb2, 0x01, 0x02, 0xb6, 0x00, 0x07, 0xb7, 0x00, 0x03]);
    assert_eq!(Instruction::from(&mut r), Ok(Instruction::GetStatic(0x0102)));
    assert_eq!(Instruction::from(&mut r), Ok(Instruction::InvokeVirtual(7)));
    assert_eq!(Instruction::from(&mut r), Ok(Instruction::InvokeSpecial(3)));
}

#[test]
fn unknown_opcode_is_fatal() {
    let mut r = Reader::new(vec![0xff]);
    assert_eq!(Instruction::from(&mut r), Err(DecodeError::UnknownOpcode(0xff)));
}

#[test]
fn code_widths_sum_to_declared_length() {
    // Two-byte bipush, one-byte return, three-byte invokespecial: exactly
    // six bytes of stream, three instructions.
    let code = decode_code(vec![0x10, 0x2a, 0xb1, 0xb7, 0x00, 0x01]).unwrap();
    assert_eq!(
        code,
        vec![Instruction::BiPush(0x2a), Instruction::Return, Instruction::InvokeSpecial(1)]
    );
}

#[test]
fn truncated_code_is_a_boundary_violation() {
    // The bipush operand is missing: never a silently short list.
    assert_eq!(decode_code(vec![0xb1, 0x10]), Err(DecodeError::CodeLengthMismatch));
}

#[test]
fn class_decodes_header_fields() {
    let data = container(&[utf8_entry("Foo"), class_entry(1)], 2, &[]);
    let class = Class::from(data).unwrap();
    assert_eq!(class.minor, 0);
    assert_eq!(class.major, 55);
    assert_eq!(class.access_info, AccessFlags::from(0x0021));
    assert_eq!(class.this_class, 2);
    assert_eq!(class.super_class, 0);
    assert_eq!(class.constant_pool.len(), 2);
    assert!(class.methods.is_empty());
    assert!(class.attributes.is_empty());
}

#[test]
fn bad_magic_is_fatal() {
    let mut data = container(&[], 0, &[]);
    data[0] = 0xcb;
    assert_eq!(Class::from(data), Err(DecodeError::BadMagic));
}

#[test]
fn zero_constant_pool_count_is_fatal() {
    let mut data = container(&[], 0, &[]);
    data[8] = 0;
    data[9] = 0;
    assert_eq!(Class::from(data), Err(DecodeError::BadConstantPoolCount));
}

#[test]
fn nonzero_interface_count_is_fatal() {
    let mut data = container(&[], 0, &[]);
    let n = data.len();
    // The interface count is the fourth-to-last u2 of an empty container.
    data[n - 7] = 1;
    assert_eq!(Class::from(data), Err(DecodeError::InterfacesUnsupported));
}

#[test]
fn nonzero_field_count_is_fatal() {
    let mut data = container(&[], 0, &[]);
    let n = data.len();
    data[n - 5] = 1;
    assert_eq!(Class::from(data), Err(DecodeError::FieldsUnsupported));
}

#[test]
fn truncated_container_is_fatal() {
    let mut data = container(&[utf8_entry("Foo")], 1, &[]);
    data.truncate(12);
    assert_eq!(Class::from(data), Err(DecodeError::UnexpectedEof));
}

fn resolved_class(pool: &[Vec<u8>], this_class: u16, methods: &[Vec<u8>]) -> Class {
    let mut class = Class::from(container(pool, this_class, methods)).unwrap();
    class.resolve_attributes().unwrap();
    class
}

#[test]
fn source_file_attribute_resolves() {
    let pool = vec![utf8_entry("SourceFile"), utf8_entry("Hello.java")];
    let attr = Attribute { name_index: 1, info: AttributeInfo::Raw(vec![0, 2]) };
    let mut class = Class::from(container(&pool, 0, &[])).unwrap();
    class.attributes = vec![attr];
    class.resolve_attributes().unwrap();
    assert_eq!(
        class.attributes,
        vec![Attribute { name_index: 1, info: AttributeInfo::SourceFile("Hello.java".to_string()) }]
    );
}

#[test]
fn line_number_table_attribute_resolves() {
    let pool = vec![utf8_entry("LineNumberTable")];
    let payload = [0u8, 1, 0, 3, 0, 7];
    let attr = Attribute { name_index: 1, info: AttributeInfo::Raw(payload.to_vec()) };
    let mut class = Class::from(container(&pool, 0, &[])).unwrap();
    class.attributes = vec![attr];
    class.resolve_attributes().unwrap();
    assert_eq!(
        class.attributes,
        vec![Attribute {
            name_index: 1,
            info: AttributeInfo::LineNumberTable(vec![LineNumber { start_pc: 3, line_number: 7 }]),
        }]
    );
}

#[test]
fn unknown_attribute_name_stays_unrecognized() {
    let pool = vec![ConstantPoolInfo::Utf8("Deprecated".to_string())];
    let attrs = vec![Attribute { name_index: 1, info: AttributeInfo::Raw(vec![1, 2, 3]) }];
    let resolved = resolve_attributes(&pool, attrs).unwrap();
    assert_eq!(
        resolved,
        vec![Attribute { name_index: 1, info: AttributeInfo::Unrecognized(vec![1, 2, 3]) }]
    );
}

#[test]
fn resolving_twice_equals_resolving_once() {
    // Idempotence: resolving an already-resolved attribute is a no-op.
    let pool = vec![
        ConstantPoolInfo::Utf8("SourceFile".to_string()),
        ConstantPoolInfo::Utf8("Hello.java".to_string()),
    ];
    let attrs = vec![Attribute { name_index: 1, info: AttributeInfo::Raw(vec![0, 2]) }];
    let once = resolve_attributes(&pool, attrs).unwrap();
    let again: Vec<Attribute> = once
        .iter()
        .map(|a| Attribute {
            name_index: a.name_index,
            info: match &a.info {
                AttributeInfo::SourceFile(s) => AttributeInfo::SourceFile(s.clone()),
                _ => panic!("expected a resolved source file"),
            },
        })
        .collect();
    let twice = resolve_attributes(&pool, again).unwrap();
    assert_eq!(twice, once);
}

#[test]
fn code_attribute_resolves_recursively() {
    let pool = vec![utf8_entry("Code"), utf8_entry("m"), utf8_entry("()V"), utf8_entry(
        "LineNumberTable",
    )];
    let nested = attr_bytes(4, &[0, 1, 0, 0, 0, 1]);
    let payload = code_payload(2, 3, &[0xb1], &[nested]);
    let method = method_bytes(0x0001, 2, 3, &[attr_bytes(1, &payload)]);
    let class = resolved_class(&pool, 0, &[method]);
    match &class.methods[0].attributes[0].info {
        AttributeInfo::Code { max_stack, max_locals, code, exception_table, attributes } => {
            assert_eq!(*max_stack, 2);
            assert_eq!(*max_locals, 3);
            assert_eq!(code, &vec![Instruction::Return]);
            assert!(exception_table.is_empty());
            assert_eq!(
                attributes,
                &vec![Attribute {
                    name_index: 4,
                    info: AttributeInfo::LineNumberTable(vec![LineNumber {
                        start_pc: 0,
                        line_number: 1,
                    }]),
                }]
            );
        },
        other => panic!("expected a code body, got {:?}", other),
    }
}

#[test]
fn nonzero_exception_table_is_fatal() {
    let pool = vec![utf8_entry("Code"), utf8_entry("m"), utf8_entry("()V")];
    // max_stack, max_locals, code_length 1, return, exception count 1.
    let payload = [0u8, 2, 0, 3, 0, 0, 0, 1, 0xb1, 0, 1, 0, 0];
    let method = method_bytes(0x0001, 2, 3, &[attr_bytes(1, &payload)]);
    let mut class = Class::from(container(&pool, 0, &[method])).unwrap();
    assert_eq!(class.resolve_attributes(), Err(DecodeError::ExceptionTableUnsupported));
}

#[test]
fn attribute_name_of_wrong_kind_is_fatal() {
    let pool = vec![class_entry(1)];
    let attr = attr_bytes(1, &[]);
    let mut data = container(&pool, 0, &[]);
    // Replace the empty class-attribute table with one raw attribute.
    let n = data.len();
    data[n - 1] = 1;
    data.extend(attr);
    let mut class = Class::from(data).unwrap();
    assert_eq!(class.resolve_attributes(), Err(DecodeError::WrongKind));
}

#[test]
fn attribute_name_out_of_range_is_fatal() {
    let pool = vec![ConstantPoolInfo::Utf8("x".to_string())];
    let attrs = vec![Attribute { name_index: 9, info: AttributeInfo::Raw(vec![]) }];
    assert_eq!(resolve_attributes(&pool, attrs), Err(DecodeError::BadIndex));
    let attrs = vec![Attribute { name_index: 0, info: AttributeInfo::Raw(vec![]) }];
    assert_eq!(resolve_attributes(&pool, attrs), Err(DecodeError::BadIndex));
}

#[test]
fn failed_resolution_keeps_the_class_tables() {
    // Resolution mutates only attribute payloads; a failure leaves the
    // pool, the header fields, the methods and the raw payloads in place.
    let pool = vec![utf8_entry("Foo"), class_entry(1), utf8_entry("m"), utf8_entry("()V")];
    let method = method_bytes(0x0009, 3, 4, &[attr_bytes(0, &[7, 8])]);
    let data = container(&pool, 2, &[method]);
    let mut class = Class::from(data).unwrap();
    assert_eq!(class.resolve_attributes(), Err(DecodeError::BadIndex));
    assert_eq!(class.this_class, 2);
    assert_eq!(class.constant_pool.len(), 4);
    assert_eq!(class.methods.len(), 1);
    assert_eq!(class.methods[0].access_flags, AccessFlags::from(0x0009));
    assert_eq!(class.methods[0].name_index, 3);
    assert_eq!(class.methods[0].descriptor_index, 4);
    assert_eq!(
        class.methods[0].attributes,
        vec![Attribute { name_index: 0, info: AttributeInfo::Raw(vec![7, 8]) }]
    );
}

#[test]
fn access_flags_render_in_declaration_order() {
    assert_eq!(AccessFlags::from(0x0001 | 0x0008).names(), "public static ");
    assert_eq!(AccessFlags::from(0x1000 | 0x0010 | 0x0002).names(), "private final synthetic ");
    assert_eq!(AccessFlags::from(0).names(), "");
}

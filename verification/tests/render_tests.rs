use classfile::class::Class;
use classfile::constant_pool::ConstantPoolInfo;
use classfile::error::RenderError;
use classfile::render::dump_constant;
use classfile::text::{append_dec, append_hex};

fn utf8_entry(s: &str) -> Vec<u8> {
    let mut v = vec![1u8];
    v.extend((s.len() as u16).to_be_bytes());
    v.extend(s.as_bytes());
    v
}

fn class_entry(name_index: u16) -> Vec<u8> {
    let mut v = vec![7u8];
    v.extend(name_index.to_be_bytes());
    v
}

fn string_entry(string_index: u16) -> Vec<u8> {
    let mut v = vec![8u8];
    v.extend(string_index.to_be_bytes());
    v
}

fn attr_bytes(name_index: u16, payload: &[u8]) -> Vec<u8> {
    let mut v = Vec::new();
    v.extend(name_index.to_be_bytes());
    v.extend((payload.len() as u32).to_be_bytes());
    v.extend(payload);
    v
}

fn method_bytes(flags: u16, name_index: u16, descriptor_index: u16, attrs: &[Vec<u8>]) -> Vec<u8> {
    let mut v = Vec::new();
    v.extend(flags.to_be_bytes());
    v.extend(name_index.to_be_bytes());
    v.extend(descriptor_index.to_be_bytes());
    v.extend((attrs.len() as u16).to_be_bytes());
    for a in attrs {
        v.extend(a);
    }
    v
}

fn code_payload(max_stack: u16, max_locals: u16, code: &[u8]) -> Vec<u8> {
    let mut v = Vec::new();
    v.extend(max_stack.to_be_bytes());
    v.extend(max_locals.to_be_bytes());
    v.extend((code.len() as u32).to_be_bytes());
    v.extend(code);
    v.extend(0u16.to_be_bytes());
    v.extend(0u16.to_be_bytes());
    v
}

fn container(pool: &[Vec<u8>], this_class: u16, methods: &[Vec<u8>]) -> Vec<u8> {
    let mut v = vec![0xca, 0xfe, 0xba, 0xbe];
    v.extend(0u16.to_be_bytes());
    v.extend(55u16.to_be_bytes());
    v.extend((pool.len() as u16 + 1).to_be_bytes());
    for e in pool {
        v.extend(e);
    }
    v.extend(0x0021u16.to_be_bytes());
    v.extend(this_class.to_be_bytes());
    v.extend(0u16.to_be_bytes());
    v.extend(0u16.to_be_bytes());
    v.extend(0u16.to_be_bytes());
    v.extend((methods.len() as u16).to_be_bytes());
    for m in methods {
        v.extend(m);
    }
    v.extend(0u16.to_be_bytes());
    v
}

fn disassembled(pool: &[Vec<u8>], this_class: u16, methods: &[Vec<u8>]) -> String {
    let mut class = Class::from(container(pool, this_class, methods)).unwrap();
    class.resolve_attributes().unwrap();
    class.disassemble().unwrap()
}

#[test]
fn decimal_and_hex_render_exactly() {
    let mut s = String::new();
    append_dec(&mut s, 0);
    s.push(' ');
    append_dec(&mut s, 65535);
    s.push(' ');
    append_hex(&mut s, 0x2a);
    s.push(' ');
    append_hex(&mut s, 0x05);
    assert_eq!(s, "0 65535 0x2a 0x05");
}

#[test]
fn dump_resolves_each_record_kind() {
    let pool = vec![
        ConstantPoolInfo::Utf8("Foo".to_string()),
        ConstantPoolInfo::Class { name_index: 1 },
        ConstantPoolInfo::Utf8("bar".to_string()),
        ConstantPoolInfo::Utf8("()V".to_string()),
        ConstantPoolInfo::NameAndType { name_index: 3, descriptor_index: 4 },
        ConstantPoolInfo::MethodRef { class_index: 2, name_and_type_index: 5 },
        ConstantPoolInfo::FieldRef { class_index: 2, name_and_type_index: 5 },
        ConstantPoolInfo::String { string_index: 1 },
    ];
    assert_eq!(dump_constant(&pool, &pool[0]).unwrap(), "\"Foo\"\n");
    assert_eq!(dump_constant(&pool, &pool[1]).unwrap(), "class Foo\n");
    assert_eq!(dump_constant(&pool, &pool[4]).unwrap(), "name=bar type=\"()V\"\n");
    assert_eq!(
        dump_constant(&pool, &pool[5]).unwrap(),
        "methodref class=Foo method=bar descriptor=\"()V\"\n"
    );
    assert_eq!(
        dump_constant(&pool, &pool[6]).unwrap(),
        "fieldref class=Foo field=bar descriptor=\"()V\"\n"
    );
    assert_eq!(dump_constant(&pool, &pool[7]).unwrap(), "string \"Foo\"\n");
}

#[test]
fn methodref_with_non_class_target_is_a_violation() {
    // The class reference points at a text record, not a class record.
    let pool = vec![
        ConstantPoolInfo::Utf8("Foo".to_string()),
        ConstantPoolInfo::MethodRef { class_index: 1, name_and_type_index: 1 },
    ];
    assert_eq!(dump_constant(&pool, &pool[1]), Err(RenderError::WrongKind));
}

#[test]
fn methodref_with_out_of_range_target_is_a_violation() {
    let pool = vec![ConstantPoolInfo::MethodRef { class_index: 9, name_and_type_index: 1 }];
    assert_eq!(dump_constant(&pool, &pool[0]), Err(RenderError::BadIndex));
    let pool = vec![ConstantPoolInfo::MethodRef { class_index: 0, name_and_type_index: 1 }];
    assert_eq!(dump_constant(&pool, &pool[0]), Err(RenderError::BadIndex));
}

#[test]
fn minimal_container_announces_its_class() {
    // A 2-entry pool: one text record and one class record naming it.
    let out = disassembled(&[utf8_entry("Foo"), class_entry(1)], 2, &[]);
    assert!(out.contains("this_class Foo\n"));
    assert!(!out.contains("method "));
}

#[test]
fn single_return_method_disassembles() {
    let pool = vec![utf8_entry("Foo"), class_entry(1), utf8_entry("main"), utf8_entry("()V"),
        utf8_entry("Code")];
    let payload = code_payload(2, 3, &[0xb1]);
    let method = method_bytes(0x0009, 3, 4, &[attr_bytes(5, &payload)]);
    let out = disassembled(&pool, 2, &[method]);
    assert!(out.contains("method main\n"));
    assert!(out.contains("  attribute Code max_stack=2 max_locals=3\n"));
    assert!(out.contains("    return\n"));
}

#[test]
fn load_string_constant_is_annotated_with_its_text() {
    let pool = vec![
        utf8_entry("Foo"),
        class_entry(1),
        utf8_entry("m"),
        utf8_entry("()V"),
        utf8_entry("Code"),
        utf8_entry("Hi there"),
        string_entry(6),
    ];
    let payload = code_payload(1, 1, &[0x12, 7, 0xb1]);
    let method = method_bytes(0x0001, 3, 4, &[attr_bytes(5, &payload)]);
    let out = disassembled(&pool, 2, &[method]);
    assert!(out.contains("    ldc 7 // string \"Hi there\"\n"));
}

#[test]
fn bipush_renders_decimal_and_hex() {
    let pool = vec![utf8_entry("Foo"), class_entry(1), utf8_entry("m"), utf8_entry("()V"),
        utf8_entry("Code")];
    let payload = code_payload(1, 1, &[0x10, 42, 0xb1]);
    let method = method_bytes(0x0001, 3, 4, &[attr_bytes(5, &payload)]);
    let out = disassembled(&pool, 2, &[method]);
    assert!(out.contains("    bipush 42 // 0x2a\n"));
}

#[test]
fn out_of_range_operand_degrades_gracefully() {
    let pool = vec![utf8_entry("Foo"), class_entry(1), utf8_entry("m"), utf8_entry("()V"),
        utf8_entry("Code")];
    let payload = code_payload(1, 1, &[0x12, 99, 0xb1]);
    let method = method_bytes(0x0001, 3, 4, &[attr_bytes(5, &payload)]);
    let out = disassembled(&pool, 2, &[method]);
    assert!(out.contains("    ldc 99 // couldn't resolve constant\n"));
}

#[test]
fn pool_listing_uses_one_based_indices() {
    let out = disassembled(&[utf8_entry("Foo"), class_entry(1)], 2, &[]);
    assert!(out.contains("const 1 \"Foo\"\n"));
    assert!(out.contains("const 2 class Foo\n"));
}

#[test]
fn this_class_of_wrong_kind_fails_rendering() {
    let mut class = Class::from(container(&[utf8_entry("Foo")], 1, &[])).unwrap();
    class.resolve_attributes().unwrap();
    assert_eq!(class.disassemble(), Err(RenderError::WrongKind));
}

#[test]
fn this_class_out_of_range_fails_rendering() {
    let mut class = Class::from(container(&[utf8_entry("Foo")], 9, &[])).unwrap();
    class.resolve_attributes().unwrap();
    assert_eq!(class.disassemble(), Err(RenderError::BadIndex));
}

#[test]
fn unrenderable_method_attribute_is_fatal() {
    // A method-level source-file attribute has no rendering.
    let pool = vec![utf8_entry("Foo"), class_entry(1), utf8_entry("m"), utf8_entry("()V"),
        utf8_entry("SourceFile")];
    let method = method_bytes(0x0001, 3, 4, &[attr_bytes(5, &[0, 1])]);
    let mut class = Class::from(container(&pool, 2, &[method])).unwrap();
    class.resolve_attributes().unwrap();
    assert_eq!(class.disassemble(), Err(RenderError::Unsupported));
}

#[test]
fn line_number_tables_are_ignored_by_the_renderer() {
    let pool = vec![utf8_entry("Foo"), class_entry(1), utf8_entry("m"), utf8_entry("()V"),
        utf8_entry("LineNumberTable")];
    let method = method_bytes(0x0001, 3, 4, &[attr_bytes(5, &[0, 0])]);
    let out = disassembled(&pool, 2, &[method]);
    assert!(out.contains("method m\n"));
    // The attribute renders nothing: no attribute line follows the method.
    assert!(!out.contains("  attribute"));
}

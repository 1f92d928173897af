use classfile::{
    ClassFileError, ClassFileResult, ClassReader, ClassReaderFlags, ConstantPoolEntry, ConstantPoolTag,
    DynamicEntry, Handle, HandleKind, JavaText, MemberRef,
};
use java_string::JavaStr;

// What the tests build class files with.

#[allow(dead_code)]
struct PoolBuilder {
    bytes: Vec<u8>,
    count: u16,
}

#[allow(dead_code)]
impl PoolBuilder {
    fn new() -> PoolBuilder {
        PoolBuilder { bytes: Vec::new(), count: 1 }
    }

    fn entry(&mut self, tag: u8, body: &[u8], slots: u16) -> u16 {
        let index = self.count;
        self.bytes.push(tag);
        self.bytes.extend_from_slice(body);
        self.count += slots;
        index
    }

    fn utf8_bytes(&mut self, text: &[u8]) -> u16 {
        let mut body = (text.len() as u16).to_be_bytes().to_vec();
        body.extend_from_slice(text);
        self.entry(1, &body, 1)
    }

    fn utf8(&mut self, text: &str) -> u16 {
        self.utf8_bytes(text.as_bytes())
    }

    fn integer(&mut self, value: i32) -> u16 {
        self.entry(3, &value.to_be_bytes(), 1)
    }

    fn float(&mut self, value: f32) -> u16 {
        self.entry(4, &value.to_bits().to_be_bytes(), 1)
    }

    fn long(&mut self, value: i64) -> u16 {
        self.entry(5, &value.to_be_bytes(), 2)
    }

    fn double(&mut self, value: f64) -> u16 {
        self.entry(6, &value.to_bits().to_be_bytes(), 2)
    }

    fn named(&mut self, tag: u8, name: &str) -> u16 {
        let name = self.utf8(name);
        self.entry(tag, &name.to_be_bytes(), 1)
    }

    fn class(&mut self, name: &str) -> u16 {
        self.named(7, name)
    }

    fn string(&mut self, text: &str) -> u16 {
        self.named(8, text)
    }

    fn method_type(&mut self, desc: &str) -> u16 {
        self.named(16, desc)
    }

    fn module(&mut self, name: &str) -> u16 {
        self.named(19, name)
    }

    fn package(&mut self, name: &str) -> u16 {
        self.named(20, name)
    }

    fn pair(&mut self, tag: u8, first: u16, second: u16) -> u16 {
        let mut body = first.to_be_bytes().to_vec();
        body.extend_from_slice(&second.to_be_bytes());
        self.entry(tag, &body, 1)
    }

    fn name_and_type(&mut self, name: &str, desc: &str) -> u16 {
        let name = self.utf8(name);
        let desc = self.utf8(desc);
        self.pair(12, name, desc)
    }

    fn member(&mut self, tag: u8, owner: &str, name: &str, desc: &str) -> u16 {
        let owner = self.class(owner);
        let name_and_type = self.name_and_type(name, desc);
        self.pair(tag, owner, name_and_type)
    }

    fn field_ref(&mut self, owner: &str, name: &str, desc: &str) -> u16 {
        self.member(9, owner, name, desc)
    }

    fn method_ref(&mut self, owner: &str, name: &str, desc: &str) -> u16 {
        self.member(10, owner, name, desc)
    }

    fn interface_method_ref(&mut self, owner: &str, name: &str, desc: &str) -> u16 {
        self.member(11, owner, name, desc)
    }

    fn method_handle(&mut self, kind: u8, reference: u16) -> u16 {
        let mut body = vec![kind];
        body.extend_from_slice(&reference.to_be_bytes());
        self.entry(15, &body, 1)
    }

    fn dynamic(&mut self, bootstrap: u16, name: &str, desc: &str) -> u16 {
        let name_and_type = self.name_and_type(name, desc);
        self.pair(17, bootstrap, name_and_type)
    }

    fn invoke_dynamic(&mut self, bootstrap: u16, name: &str, desc: &str) -> u16 {
        let name_and_type = self.name_and_type(name, desc);
        self.pair(18, bootstrap, name_and_type)
    }
}

#[allow(dead_code)]
struct ClassBuilder {
    minor: u16,
    major: u16,
    pool: PoolBuilder,
    access: u16,
    this_class: u16,
    super_class: u16,
    interfaces: Vec<u16>,
    fields: Vec<Vec<u8>>,
    methods: Vec<Vec<u8>>,
    attributes: Vec<Vec<u8>>,
}

#[allow(dead_code)]
impl ClassBuilder {
    fn new(name: &str, super_name: Option<&str>, access: u16) -> ClassBuilder {
        let mut pool = PoolBuilder::new();
        let this_class = pool.class(name);
        let super_class = match super_name {
            Some(super_name) => pool.class(super_name),
            None => 0,
        };
        ClassBuilder {
            minor: 0,
            major: 52,
            pool,
            access,
            this_class,
            super_class,
            interfaces: Vec::new(),
            fields: Vec::new(),
            methods: Vec::new(),
            attributes: Vec::new(),
        }
    }

    fn attribute(&mut self, name: &str, payload: &[u8]) -> Vec<u8> {
        let name = self.pool.utf8(name);
        let mut bytes = name.to_be_bytes().to_vec();
        bytes.extend_from_slice(&(payload.len() as u32).to_be_bytes());
        bytes.extend_from_slice(payload);
        bytes
    }

    fn add_attribute(&mut self, name: &str, payload: &[u8]) {
        let attribute = self.attribute(name, payload);
        self.attributes.push(attribute);
    }

    fn member(&mut self, access: u16, name: &str, desc: &str, attributes: &[Vec<u8>]) -> Vec<u8> {
        let name = self.pool.utf8(name);
        let desc = self.pool.utf8(desc);
        let mut bytes = access.to_be_bytes().to_vec();
        bytes.extend_from_slice(&name.to_be_bytes());
        bytes.extend_from_slice(&desc.to_be_bytes());
        bytes.extend_from_slice(&(attributes.len() as u16).to_be_bytes());
        for attribute in attributes {
            bytes.extend_from_slice(attribute);
        }
        bytes
    }

    fn add_field(&mut self, access: u16, name: &str, desc: &str, attributes: &[Vec<u8>]) {
        let field = self.member(access, name, desc, attributes);
        self.fields.push(field);
    }

    fn add_method(&mut self, access: u16, name: &str, desc: &str, attributes: &[Vec<u8>]) {
        let method = self.member(access, name, desc, attributes);
        self.methods.push(method);
    }

    fn code(
        &mut self,
        max_stack: u16,
        max_locals: u16,
        code: &[u8],
        handlers: &[[u16; 4]],
        attributes: &[Vec<u8>],
    ) -> Vec<u8> {
        let mut payload = max_stack.to_be_bytes().to_vec();
        payload.extend_from_slice(&max_locals.to_be_bytes());
        payload.extend_from_slice(&(code.len() as u32).to_be_bytes());
        payload.extend_from_slice(code);
        payload.extend_from_slice(&(handlers.len() as u16).to_be_bytes());
        for handler in handlers {
            for part in handler {
                payload.extend_from_slice(&part.to_be_bytes());
            }
        }
        payload.extend_from_slice(&(attributes.len() as u16).to_be_bytes());
        for attribute in attributes {
            payload.extend_from_slice(attribute);
        }
        self.attribute("Code", &payload)
    }

    fn add_code_method(&mut self, name: &str, code: &[u8], code_attributes: &[Vec<u8>]) {
        let code = self.code(2, 3, code, &[], code_attributes);
        self.add_method(0x0001, name, "()V", &[code]);
    }

    fn build(&self) -> Vec<u8> {
        let mut bytes = vec![0xca, 0xfe, 0xba, 0xbe];
        bytes.extend_from_slice(&self.minor.to_be_bytes());
        bytes.extend_from_slice(&self.major.to_be_bytes());
        bytes.extend_from_slice(&self.pool.count.to_be_bytes());
        bytes.extend_from_slice(&self.pool.bytes);
        bytes.extend_from_slice(&self.access.to_be_bytes());
        bytes.extend_from_slice(&self.this_class.to_be_bytes());
        bytes.extend_from_slice(&self.super_class.to_be_bytes());
        bytes.extend_from_slice(&(self.interfaces.len() as u16).to_be_bytes());
        for interface in &self.interfaces {
            bytes.extend_from_slice(&interface.to_be_bytes());
        }
        bytes.extend_from_slice(&(self.fields.len() as u16).to_be_bytes());
        for field in &self.fields {
            bytes.extend_from_slice(field);
        }
        bytes.extend_from_slice(&(self.methods.len() as u16).to_be_bytes());
        for method in &self.methods {
            bytes.extend_from_slice(method);
        }
        bytes.extend_from_slice(&(self.attributes.len() as u16).to_be_bytes());
        for attribute in &self.attributes {
            bytes.extend_from_slice(attribute);
        }
        bytes
    }
}

#[allow(dead_code)]
fn u16s(values: &[u16]) -> Vec<u8> {
    let mut bytes = Vec::new();
    for value in values {
        bytes.extend_from_slice(&value.to_be_bytes());
    }
    bytes
}

#[allow(dead_code)]
fn text(s: &str) -> JavaText {
    JavaText { bytes: JavaStr::from_str(s).as_bytes().to_vec() }
}

#[allow(dead_code)]
fn drain<T>(mut next: impl FnMut() -> Option<ClassFileResult<T>>) -> ClassFileResult<Vec<T>> {
    let mut items = Vec::new();
    while let Some(item) = next() {
        items.push(item?);
    }
    Ok(items)
}

#[allow(dead_code)]
fn open(bytes: &[u8]) -> ClassReader<'_> {
    ClassReader::new(bytes, ClassReaderFlags::empty()).unwrap()
}

fn pool_of(class: &ClassBuilder) -> Vec<u8> {
    class.build()
}

/// A class whose pool holds an entry of every kind.
fn full_pool() -> (Vec<u8>, Vec<(u16, ConstantPoolTag)>) {
    let mut class = ClassBuilder::new("Full", Some("java/lang/Object"), 0x21);
    let pool = &mut class.pool;
    let mut kinds = vec![
        (1, ConstantPoolTag::Utf8),
        (2, ConstantPoolTag::Class),
        (3, ConstantPoolTag::Utf8),
        (4, ConstantPoolTag::Class),
    ];
    kinds.push((pool.integer(-1), ConstantPoolTag::Integer));
    kinds.push((pool.float(1.5), ConstantPoolTag::Float));
    kinds.push((pool.long(-2), ConstantPoolTag::Long));
    kinds.push((pool.double(2.5), ConstantPoolTag::Double));
    let string = pool.string("text");
    kinds.push((string, ConstantPoolTag::String));
    let field = pool.field_ref("Full", "f", "I");
    kinds.push((field, ConstantPoolTag::FieldRef));
    let method = pool.method_ref("Full", "m", "()V");
    kinds.push((method, ConstantPoolTag::MethodRef));
    let interface_method = pool.interface_method_ref("java/lang/Runnable", "run", "()V");
    kinds.push((interface_method, ConstantPoolTag::InterfaceMethodRef));
    kinds.push((interface_method - 1, ConstantPoolTag::NameAndType));
    kinds.push((pool.method_handle(9, interface_method), ConstantPoolTag::MethodHandle));
    kinds.push((pool.method_type("()V"), ConstantPoolTag::MethodType));
    kinds.push((pool.dynamic(0, "d", "I"), ConstantPoolTag::Dynamic));
    kinds.push((pool.invoke_dynamic(1, "c", "()V"), ConstantPoolTag::InvokeDynamic));
    kinds.push((pool.module("mod"), ConstantPoolTag::Module));
    kinds.push((pool.package("pkg"), ConstantPoolTag::Package));
    (class.build(), kinds)
}

#[test]
fn type_agrees_with_the_tag_byte() {
    let (bytes, kinds) = full_pool();
    let reader = open(&bytes);
    let pool = reader.constant_pool();
    for (index, kind) in kinds {
        assert_eq!(Ok(kind), pool.get_type(index));
    }
    let mut offset = 10;
    let mut index = 1u16;
    while (index as usize) < pool.slot_count() {
        let tag = pool.get_type(index).unwrap();
        assert_eq!(bytes[offset], tag.number());
        assert_eq!(Ok(tag), ConstantPoolTag::from_u8(bytes[offset]));
        let width = match tag {
            ConstantPoolTag::Utf8 => 3 + u16::from_be_bytes([bytes[offset + 1], bytes[offset + 2]]) as usize,
            ConstantPoolTag::Long | ConstantPoolTag::Double => 9,
            ConstantPoolTag::MethodHandle => 4,
            ConstantPoolTag::Class
            | ConstantPoolTag::String
            | ConstantPoolTag::MethodType
            | ConstantPoolTag::Module
            | ConstantPoolTag::Package => 3,
            _ => 5,
        };
        offset += width;
        index += if tag.is_wide() { 2 } else { 1 };
    }
    assert_eq!(reader.metadata_start(), offset);
}

#[test]
fn slot_behind_a_wide_entry_is_empty() {
    let mut class = ClassBuilder::new("T", None, 0);
    let long = class.pool.long(1);
    let double = class.pool.double(1.0);
    let bytes = class.build();
    let reader = open(&bytes);
    let pool = reader.constant_pool();
    assert_eq!(Ok(1), pool.get_i64(long));
    assert_eq!(long + 2, double);
    assert_eq!(Ok(ConstantPoolTag::Double), pool.get_type(long + 2));
    assert_eq!(Ok(1.0f64.to_bits()), pool.get_f64(double));
    for hole in [long + 1, double + 1] {
        assert_eq!(Err(ClassFileError::BadConstantPoolIndexNoEntry(hole)), pool.get_type(hole));
        assert_eq!(Err(ClassFileError::BadConstantPoolIndexNoEntry(hole)), pool.get(hole));
        assert_eq!(Err(ClassFileError::BadConstantPoolIndexNoEntry(hole)), pool.get_i64(hole));
        assert_eq!(Err(ClassFileError::BadConstantPoolIndexNoEntry(hole)), pool.get_utf8(hole));
    }
    assert_eq!(Err(ClassFileError::BadConstantPoolIndexNoEntry(0)), pool.get_type(0));
    assert_eq!(Ok(None), pool.get_optional(0));
    assert_eq!(Ok(None), pool.get_optional_utf8(0));
    assert_eq!(Ok(None), pool.get_optional_class(0));
    let len = pool.slot_count();
    assert_eq!(7, len);
    assert_eq!(Err(ClassFileError::BadConstantPoolIndex { index: 7, len: 7 }), pool.get_type(7));
}

#[test]
fn entries_are_resolved() {
    let (bytes, kinds) = full_pool();
    let reader = open(&bytes);
    let pool = reader.constant_pool();
    let index_of = |kind: ConstantPoolTag| kinds.iter().rev().find(|(_, k)| *k == kind).unwrap().0;
    assert_eq!(Ok(-1), pool.get_i32(index_of(ConstantPoolTag::Integer)));
    assert_eq!(Ok(1.5f32.to_bits()), pool.get_f32(index_of(ConstantPoolTag::Float)));
    assert_eq!(Ok(-2), pool.get_i64(index_of(ConstantPoolTag::Long)));
    assert_eq!(Ok(2.5f64.to_bits()), pool.get_f64(index_of(ConstantPoolTag::Double)));
    assert_eq!(Ok(text("text")), pool.get_string(index_of(ConstantPoolTag::String)));
    assert_eq!(Ok(text("Full")), pool.get_class(2));
    assert_eq!(Ok(text("Full")), pool.get_utf8(1));
    assert_eq!(Ok(&b"Full"[..]), pool.get_utf8_as_bytes(1));
    assert_eq!(
        Ok(MemberRef { owner: text("Full"), name: text("f"), desc: text("I") }),
        pool.get_field_ref(index_of(ConstantPoolTag::FieldRef))
    );
    assert_eq!(
        Ok(MemberRef { owner: text("Full"), name: text("m"), desc: text("()V") }),
        pool.get_method_ref(index_of(ConstantPoolTag::MethodRef))
    );
    assert_eq!(
        Ok(MemberRef { owner: text("java/lang/Runnable"), name: text("run"), desc: text("()V") }),
        pool.get_interface_method_ref(index_of(ConstantPoolTag::InterfaceMethodRef))
    );
    assert_eq!(
        Ok(Handle {
            kind: HandleKind::InvokeInterface,
            owner: text("java/lang/Runnable"),
            name: text("run"),
            desc: text("()V"),
            is_interface: true
        }),
        pool.get_method_handle(index_of(ConstantPoolTag::MethodHandle))
    );
    assert_eq!(Ok(text("()V")), pool.get_method_type(index_of(ConstantPoolTag::MethodType)));
    assert_eq!(
        Ok(DynamicEntry { bootstrap_method_attr_index: 0, name: text("d"), desc: text("I") }),
        pool.get_dynamic(index_of(ConstantPoolTag::Dynamic))
    );
    assert_eq!(
        Ok(DynamicEntry { bootstrap_method_attr_index: 1, name: text("c"), desc: text("()V") }),
        pool.get_invoke_dynamic(index_of(ConstantPoolTag::InvokeDynamic))
    );
    assert_eq!(Ok(text("mod")), pool.get_module(index_of(ConstantPoolTag::Module)));
    assert_eq!(Ok(text("pkg")), pool.get_package(index_of(ConstantPoolTag::Package)));
    assert_eq!(
        Ok(ConstantPoolEntry::Integer(-1)),
        pool.get(index_of(ConstantPoolTag::Integer))
    );
    assert_eq!(
        Ok(Some(ConstantPoolEntry::Class(text("java/lang/Object")))),
        pool.get_optional(4)
    );
    assert_eq!(
        Err(ClassFileError::BadConstantPoolType {
            expected: ConstantPoolTag::Utf8,
            actual: ConstantPoolTag::Class
        }),
        pool.get_utf8(2)
    );
    assert_eq!(
        Err(ClassFileError::BadConstantPoolType {
            expected: ConstantPoolTag::Class,
            actual: ConstantPoolTag::Utf8
        }),
        pool.get_class(1)
    );
}

#[test]
fn walk_over_the_pool_passes_over_empty_slots() {
    let mut class = ClassBuilder::new("T", None, 0);
    class.pool.long(5);
    class.pool.integer(6);
    class.pool.double(7.0);
    let bytes = class.build();
    let reader = open(&bytes);
    let mut entries = reader.constant_pool().iter();
    assert_eq!((3, Some(7)), entries.size_hint());
    assert_eq!(
        Ok(vec![
            ConstantPoolEntry::Utf8(text("T")),
            ConstantPoolEntry::Class(text("T")),
            ConstantPoolEntry::Long(5),
            ConstantPoolEntry::Integer(6),
            ConstantPoolEntry::Double(7.0f64.to_bits()),
        ]),
        drain(|| entries.next())
    );
    assert_eq!(None, entries.next());
}

#[test]
fn handle_kinds_take_their_references() {
    let mut class = ClassBuilder::new("T", None, 0);
    let field = class.pool.field_ref("T", "f", "I");
    let method = class.pool.method_ref("T", "m", "()V");
    let interface_method = class.pool.interface_method_ref("I", "m", "()V");
    let get_field = class.pool.method_handle(1, field);
    let put_static = class.pool.method_handle(4, field);
    let invoke_virtual = class.pool.method_handle(5, method);
    let invoke_static = class.pool.method_handle(6, interface_method);
    let invoke_special = class.pool.method_handle(7, method);
    let new_invoke_special = class.pool.method_handle(8, method);
    let wrong = class.pool.method_handle(1, method);
    let wrong_static = class.pool.method_handle(6, field);
    let bad_kind = class.pool.method_handle(10, method);
    let bytes = class.build();
    let reader = open(&bytes);
    let pool = reader.constant_pool();
    let kind = |index: u16| pool.get_method_handle(index).map(|handle| (handle.kind, handle.is_interface));
    assert_eq!(Ok((HandleKind::GetField, false)), kind(get_field));
    assert_eq!(Ok((HandleKind::PutStatic, false)), kind(put_static));
    assert_eq!(Ok((HandleKind::InvokeVirtual, false)), kind(invoke_virtual));
    assert_eq!(Ok((HandleKind::InvokeStatic, true)), kind(invoke_static));
    assert_eq!(Ok((HandleKind::InvokeSpecial, false)), kind(invoke_special));
    assert_eq!(Ok((HandleKind::NewInvokeSpecial, false)), kind(new_invoke_special));
    assert_eq!(
        Err(ClassFileError::BadConstantPoolType {
            expected: ConstantPoolTag::FieldRef,
            actual: ConstantPoolTag::MethodRef
        }),
        kind(wrong)
    );
    assert_eq!(
        Err(ClassFileError::BadConstantPoolType {
            expected: ConstantPoolTag::MethodRef,
            actual: ConstantPoolTag::FieldRef
        }),
        kind(wrong_static)
    );
    assert_eq!(Err(ClassFileError::BadHandleKind(10)), kind(bad_kind));
    assert_eq!(Err(ClassFileError::BadHandleKind(0)), HandleKind::from_u8(0));
    assert_eq!(Ok(HandleKind::InvokeInterface), HandleKind::from_u8(9));
    assert_eq!(9, HandleKind::InvokeInterface.number());
}

#[test]
fn bad_tag_in_the_pool() {
    let mut class = ClassBuilder::new("T", None, 0);
    class.pool.entry(2, &[], 1);
    assert_eq!(
        Some(ClassFileError::BadConstantPoolTag(2)),
        ClassReader::new(&class.build(), ClassReaderFlags::empty()).err()
    );
    assert_eq!(Err(ClassFileError::BadConstantPoolTag(13)), ConstantPoolTag::from_u8(13));
    assert_eq!(Ok(ConstantPoolTag::Package), ConstantPoolTag::from_u8(20));
}

#[test]
fn modified_utf8_is_decoded() {
    let mut class = ClassBuilder::new("T", None, 0);
    let plain = class.pool.utf8("héllo");
    let null = class.pool.utf8_bytes(&[b'a', 0xc0, 0x80, b'b']);
    let pair = class.pool.utf8_bytes(&[0xed, 0xa0, 0xbd, 0xed, 0xb2, 0xa3]);
    let lone = class.pool.utf8_bytes(&[0xed, 0xa0, 0x80]);
    let broken = class.pool.utf8_bytes(&[b'a', 0xed]);
    let bytes = class.build();
    let reader = open(&bytes);
    let pool = reader.constant_pool();
    assert_eq!(Ok(text("héllo")), pool.get_utf8(plain));
    assert_eq!(Ok(JavaText { bytes: vec![b'a', 0, b'b'] }), pool.get_utf8(null));
    assert_eq!(Ok(text("💣")), pool.get_utf8(pair));
    assert_eq!(Ok(JavaText { bytes: vec![0xed, 0xa0, 0x80] }), pool.get_utf8(lone));
    assert_eq!(Ok(&[b'a', 0xc0, 0x80, b'b'][..]), pool.get_utf8_as_bytes(null));
    assert!(matches!(pool.get_utf8(broken), Err(ClassFileError::Utf8(_))));
    assert_eq!(
        JavaStr::from_modified_utf8(&[b'a', 0xed]).err().map(ClassFileError::Utf8),
        pool.get_utf8(broken).err()
    );
    assert_eq!(Ok(text("héllo")), JavaText::from_modified_utf8("héllo".as_bytes()));
}

use classfile::{
    AnnotationEvent, AnnotationNode, AnnotationValue, ClassAccess, ClassFileResult, ClassInnerClassEvent,
    ClassOuterClassEvent, ClassReader, ClassReaderFlags, InnerClassAccess, JavaText, ModuleEvent,
    ModuleProvidesEvent, ModuleRelationAccess, ModuleRelationEvent, ModuleRequireAccess, ModuleRequireEvent,
    TypeAnnotationNode, TypePath, TypeReference,
};
use java_string::JavaStr;

// What the tests build class files with.

#[allow(dead_code)]
struct PoolBuilder {
    bytes: Vec<u8>,
    count: u16,
}

#[allow(dead_code)]
impl PoolBuilder {
    fn new() -> PoolBuilder {
        PoolBuilder { bytes: Vec::new(), count: 1 }
    }

    fn entry(&mut self, tag: u8, body: &[u8], slots: u16) -> u16 {
        let index = self.count;
        self.bytes.push(tag);
        self.bytes.extend_from_slice(body);
        self.count += slots;
        index
    }

    fn utf8_bytes(&mut self, text: &[u8]) -> u16 {
        let mut body = (text.len() as u16).to_be_bytes().to_vec();
        body.extend_from_slice(text);
        self.entry(1, &body, 1)
    }

    fn utf8(&mut self, text: &str) -> u16 {
        self.utf8_bytes(text.as_bytes())
    }

    fn integer(&mut self, value: i32) -> u16 {
        self.entry(3, &value.to_be_bytes(), 1)
    }

    fn float(&mut self, value: f32) -> u16 {
        self.entry(4, &value.to_bits().to_be_bytes(), 1)
    }

    fn long(&mut self, value: i64) -> u16 {
        self.entry(5, &value.to_be_bytes(), 2)
    }

    fn double(&mut self, value: f64) -> u16 {
        self.entry(6, &value.to_bits().to_be_bytes(), 2)
    }

    fn named(&mut self, tag: u8, name: &str) -> u16 {
        let name = self.utf8(name);
        self.entry(tag, &name.to_be_bytes(), 1)
    }

    fn class(&mut self, name: &str) -> u16 {
        self.named(7, name)
    }

    fn string(&mut self, text: &str) -> u16 {
        self.named(8, text)
    }

    fn method_type(&mut self, desc: &str) -> u16 {
        self.named(16, desc)
    }

    fn module(&mut self, name: &str) -> u16 {
        self.named(19, name)
    }

    fn package(&mut self, name: &str) -> u16 {
        self.named(20, name)
    }

    fn pair(&mut self, tag: u8, first: u16, second: u16) -> u16 {
        let mut body = first.to_be_bytes().to_vec();
        body.extend_from_slice(&second.to_be_bytes());
        self.entry(tag, &body, 1)
    }

    fn name_and_type(&mut self, name: &str, desc: &str) -> u16 {
        let name = self.utf8(name);
        let desc = self.utf8(desc);
        self.pair(12, name, desc)
    }

    fn member(&mut self, tag: u8, owner: &str, name: &str, desc: &str) -> u16 {
        let owner = self.class(owner);
        let name_and_type = self.name_and_type(name, desc);
        self.pair(tag, owner, name_and_type)
    }

    fn field_ref(&mut self, owner: &str, name: &str, desc: &str) -> u16 {
        self.member(9, owner, name, desc)
    }

    fn method_ref(&mut self, owner: &str, name: &str, desc: &str) -> u16 {
        self.member(10, owner, name, desc)
    }

    fn interface_method_ref(&mut self, owner: &str, name: &str, desc: &str) -> u16 {
        self.member(11, owner, name, desc)
    }

    fn method_handle(&mut self, kind: u8, reference: u16) -> u16 {
        let mut body = vec![kind];
        body.extend_from_slice(&reference.to_be_bytes());
        self.entry(15, &body, 1)
    }

    fn dynamic(&mut self, bootstrap: u16, name: &str, desc: &str) -> u16 {
        let name_and_type = self.name_and_type(name, desc);
        self.pair(17, bootstrap, name_and_type)
    }

    fn invoke_dynamic(&mut self, bootstrap: u16, name: &str, desc: &str) -> u16 {
        let name_and_type = self.name_and_type(name, desc);
        self.pair(18, bootstrap, name_and_type)
    }
}

#[allow(dead_code)]
struct ClassBuilder {
    minor: u16,
    major: u16,
    pool: PoolBuilder,
    access: u16,
    this_class: u16,
    super_class: u16,
    interfaces: Vec<u16>,
    fields: Vec<Vec<u8>>,
    methods: Vec<Vec<u8>>,
    attributes: Vec<Vec<u8>>,
}

#[allow(dead_code)]
impl ClassBuilder {
    fn new(name: &str, super_name: Option<&str>, access: u16) -> ClassBuilder {
        let mut pool = PoolBuilder::new();
        let this_class = pool.class(name);
        let super_class = match super_name {
            Some(super_name) => pool.class(super_name),
            None => 0,
        };
        ClassBuilder {
            minor: 0,
            major: 52,
            pool,
            access,
            this_class,
            super_class,
            interfaces: Vec::new(),
            fields: Vec::new(),
            methods: Vec::new(),
            attributes: Vec::new(),
        }
    }

    fn attribute(&mut self, name: &str, payload: &[u8]) -> Vec<u8> {
        let name = self.pool.utf8(name);
        let mut bytes = name.to_be_bytes().to_vec();
        bytes.extend_from_slice(&(payload.len() as u32).to_be_bytes());
        bytes.extend_from_slice(payload);
        bytes
    }

    fn add_attribute(&mut self, name: &str, payload: &[u8]) {
        let attribute = self.attribute(name, payload);
        self.attributes.push(attribute);
    }

    fn member(&mut self, access: u16, name: &str, desc: &str, attributes: &[Vec<u8>]) -> Vec<u8> {
        let name = self.pool.utf8(name);
        let desc = self.pool.utf8(desc);
        let mut bytes = access.to_be_bytes().to_vec();
        bytes.extend_from_slice(&name.to_be_bytes());
        bytes.extend_from_slice(&desc.to_be_bytes());
        bytes.extend_from_slice(&(attributes.len() as u16).to_be_bytes());
        for attribute in attributes {
            bytes.extend_from_slice(attribute);
        }
        bytes
    }

    fn add_field(&mut self, access: u16, name: &str, desc: &str, attributes: &[Vec<u8>]) {
        let field = self.member(access, name, desc, attributes);
        self.fields.push(field);
    }

    fn add_method(&mut self, access: u16, name: &str, desc: &str, attributes: &[Vec<u8>]) {
        let method = self.member(access, name, desc, attributes);
        self.methods.push(method);
    }

    fn code(
        &mut self,
        max_stack: u16,
        max_locals: u16,
        code: &[u8],
        handlers: &[[u16; 4]],
        attributes: &[Vec<u8>],
    ) -> Vec<u8> {
        let mut payload = max_stack.to_be_bytes().to_vec();
        payload.extend_from_slice(&max_locals.to_be_bytes());
        payload.extend_from_slice(&(code.len() as u32).to_be_bytes());
        payload.extend_from_slice(code);
        payload.extend_from_slice(&(handlers.len() as u16).to_be_bytes());
        for handler in handlers {
            for part in handler {
                payload.extend_from_slice(&part.to_be_bytes());
            }
        }
        payload.extend_from_slice(&(attributes.len() as u16).to_be_bytes());
        for attribute in attributes {
            payload.extend_from_slice(attribute);
        }
        self.attribute("Code", &payload)
    }

    fn add_code_method(&mut self, name: &str, code: &[u8], code_attributes: &[Vec<u8>]) {
        let code = self.code(2, 3, code, &[], code_attributes);
        self.add_method(0x0001, name, "()V", &[code]);
    }

    fn build(&self) -> Vec<u8> {
        let mut bytes = vec![0xca, 0xfe, 0xba, 0xbe];
        bytes.extend_from_slice(&self.minor.to_be_bytes());
        bytes.extend_from_slice(&self.major.to_be_bytes());
        bytes.extend_from_slice(&self.pool.count.to_be_bytes());
        bytes.extend_from_slice(&self.pool.bytes);
        bytes.extend_from_slice(&self.access.to_be_bytes());
        bytes.extend_from_slice(&self.this_class.to_be_bytes());
        bytes.extend_from_slice(&self.super_class.to_be_bytes());
        bytes.extend_from_slice(&(self.interfaces.len() as u16).to_be_bytes());
        for interface in &self.interfaces {
            bytes.extend_from_slice(&interface.to_be_bytes());
        }
        bytes.extend_from_slice(&(self.fields.len() as u16).to_be_bytes());
        for field in &self.fields {
            bytes.extend_from_slice(field);
        }
        bytes.extend_from_slice(&(self.methods.len() as u16).to_be_bytes());
        for method in &self.methods {
            bytes.extend_from_slice(method);
        }
        bytes.extend_from_slice(&(self.attributes.len() as u16).to_be_bytes());
        for attribute in &self.attributes {
            bytes.extend_from_slice(attribute);
        }
        bytes
    }
}

#[allow(dead_code)]
fn u16s(values: &[u16]) -> Vec<u8> {
    let mut bytes = Vec::new();
    for value in values {
        bytes.extend_from_slice(&value.to_be_bytes());
    }
    bytes
}

#[allow(dead_code)]
fn text(s: &str) -> JavaText {
    JavaText { bytes: JavaStr::from_str(s).as_bytes().to_vec() }
}

#[allow(dead_code)]
fn drain<T>(mut next: impl FnMut() -> Option<ClassFileResult<T>>) -> ClassFileResult<Vec<T>> {
    let mut items = Vec::new();
    while let Some(item) = next() {
        items.push(item?);
    }
    Ok(items)
}

#[allow(dead_code)]
fn open(bytes: &[u8]) -> ClassReader<'_> {
    ClassReader::new(bytes, ClassReaderFlags::empty()).unwrap()
}

const PUBLIC_SUPER: u16 = 0x0021;

fn hello_world() -> Vec<u8> {
    let mut class = ClassBuilder::new("HelloWorld", Some("java/lang/Object"), PUBLIC_SUPER);
    class.major = 65;
    let init = class.pool.method_ref("java/lang/Object", "<init>", "()V");
    let mut code = vec![0x2a, 0xb7];
    code.extend_from_slice(&init.to_be_bytes());
    code.push(0xb1);
    let lines = class.attribute("LineNumberTable", &u16s(&[1, 0, 1]));
    let code = class.code(1, 1, &code, &[], &[lines]);
    class.add_method(0x0001, "<init>", "()V", &[code]);
    let source = class.pool.utf8("HelloWorld.java");
    class.add_attribute("SourceFile", &source.to_be_bytes());
    class.build()
}

#[test]
fn test_hello_world() {
    let bytecode = hello_world();
    let reader = ClassReader::new(&bytecode, ClassReaderFlags::from_bits_retain(ClassReaderFlags::NONE)).unwrap();
    assert_eq!(
        ClassAccess::from_bits_retain(ClassAccess::PUBLIC | ClassAccess::SUPER),
        reader.access().unwrap()
    );
    assert_eq!(text("HelloWorld"), reader.name().unwrap());
    assert_eq!(text("java/lang/Object"), reader.super_name().unwrap().unwrap());
}

#[test]
fn test_interfaces() {
    let mut class = ClassBuilder::new("TestInterfaces", Some("java/lang/Object"), PUBLIC_SUPER);
    let runnable = class.pool.class("java/lang/Runnable");
    let serializable = class.pool.class("java/io/Serializable");
    class.interfaces = vec![runnable, serializable];
    let bytecode = class.build();
    let reader = open(&bytecode);
    let mut interfaces = reader.interfaces().unwrap();
    assert_eq!(
        vec![text("java/lang/Runnable"), text("java/io/Serializable")],
        drain(|| interfaces.next()).unwrap()
    );
}

#[test]
fn test_signature() {
    let mut class = ClassBuilder::new("TestSignature", Some("java/lang/Object"), PUBLIC_SUPER);
    let signature = class.pool.utf8("<T:Ljava/lang/Object;>Ljava/lang/Object;");
    class.add_attribute("Signature", &signature.to_be_bytes());
    let bytecode = class.build();
    let reader = open(&bytecode);
    assert_eq!(
        text("<T:Ljava/lang/Object;>Ljava/lang/Object;"),
        reader.events().unwrap().signature().unwrap().unwrap()
    );
}

#[test]
fn test_deprecated() {
    let mut class = ClassBuilder::new("TestDeprecated", Some("java/lang/Object"), PUBLIC_SUPER);
    class.add_attribute("Deprecated", &[]);
    let bytecode = class.build();
    let reader = open(&bytecode);
    assert!(reader.events().unwrap().is_deprecated());
}

#[test]
fn test_synthetic() {
    let class = ClassBuilder::new("TestSyntheticClass$1", Some("java/lang/Object"), 0x1020);
    let bytecode = class.build();
    let reader = open(&bytecode);
    assert_eq!(text("TestSyntheticClass$1"), reader.name().unwrap());
    assert!(reader.events().unwrap().is_synthetic());
}

#[test]
fn test_synthetic_old() {
    let mut class = ClassBuilder::new("TestSyntheticClass$1", Some("java/lang/Object"), 0x0020);
    class.major = 48;
    class.add_attribute("Synthetic", &[]);
    let bytecode = class.build();
    let reader = open(&bytecode);
    assert!(reader.events().unwrap().is_synthetic());
}

#[test]
fn test_source_file() {
    let bytecode = hello_world();
    let reader = open(&bytecode);
    assert_eq!(
        text("HelloWorld.java"),
        reader.events().unwrap().source().unwrap().unwrap().source.unwrap()
    );
}

const JAVA_VERSION: &str = "21.0.2";

fn module_info() -> Vec<u8> {
    let mut class = ClassBuilder::new("module-info", None, 0x8000);
    class.major = 65;
    let name = class.pool.module("test");
    let version = class.pool.utf8("1.2.3");
    let java_version = class.pool.utf8(JAVA_VERSION);
    let base = class.pool.module("java.base");
    let logging = class.pool.module("java.logging");
    let http = class.pool.module("java.net.http");
    let pkg = class.pool.package("pkg");
    let pkg2 = class.pool.package("pkg2");
    let runnable = class.pool.class("java/lang/Runnable");
    let provider = class.pool.class("pkg/ClassInPackage");
    let mut payload = u16s(&[name, 0, version]);
    payload.extend(u16s(&[3, base, 0, java_version, logging, 0x0040, java_version, http, 0x0020, java_version]));
    payload.extend(u16s(&[2, pkg, 0, 0, pkg2, 0, 1, base]));
    payload.extend(u16s(&[2, pkg2, 0, 0, pkg, 0, 1, base]));
    payload.extend(u16s(&[1, runnable]));
    payload.extend(u16s(&[1, runnable, 1, provider]));
    class.add_attribute("Module", &payload);
    class.build()
}

#[test]
fn test_module() {
    let bytecode = module_info();
    let reader = open(&bytecode);
    assert_eq!(ClassAccess::from_bits_retain(ClassAccess::MODULE), reader.access().unwrap());
    let module = reader.events().unwrap().module().unwrap().unwrap();
    assert_eq!(text("test"), module.name);
    assert_eq!(text("1.2.3"), module.version.unwrap());
    let mut events = module.events;

    let mut requires = match events.next().unwrap().unwrap() {
        ModuleEvent::Requires(requires) => requires,
        other => panic!("expected requires, got {:?}", other),
    };
    assert_eq!(
        Some(Ok(ModuleRequireEvent {
            module: text("java.base"),
            version: Some(text(JAVA_VERSION)),
            access: ModuleRequireAccess::empty()
        })),
        requires.next()
    );
    assert_eq!(
        Some(Ok(ModuleRequireEvent {
            module: text("java.logging"),
            version: Some(text(JAVA_VERSION)),
            access: ModuleRequireAccess::from_bits_retain(ModuleRequireAccess::STATIC_PHASE)
        })),
        requires.next()
    );
    assert_eq!(
        Some(Ok(ModuleRequireEvent {
            module: text("java.net.http"),
            version: Some(text(JAVA_VERSION)),
            access: ModuleRequireAccess::from_bits_retain(ModuleRequireAccess::TRANSITIVE)
        })),
        requires.next()
    );
    assert!(requires.next().is_none());

    let mut exports = match events.next().unwrap().unwrap() {
        ModuleEvent::Exports(exports) => exports,
        other => panic!("expected exports, got {:?}", other),
    };
    assert_eq!(
        Some(Ok(ModuleRelationEvent {
            package: text("pkg"),
            modules: Vec::new(),
            access: ModuleRelationAccess::empty()
        })),
        exports.next()
    );
    assert_eq!(
        Some(Ok(ModuleRelationEvent {
            package: text("pkg2"),
            modules: vec![text("java.base")],
            access: ModuleRelationAccess::empty()
        })),
        exports.next()
    );
    assert!(exports.next().is_none());

    let mut opens = match events.next().unwrap().unwrap() {
        ModuleEvent::Opens(opens) => opens,
        other => panic!("expected opens, got {:?}", other),
    };
    assert_eq!(
        Some(Ok(ModuleRelationEvent {
            package: text("pkg2"),
            modules: Vec::new(),
            access: ModuleRelationAccess::empty()
        })),
        opens.next()
    );
    assert_eq!(
        Some(Ok(ModuleRelationEvent {
            package: text("pkg"),
            modules: vec![text("java.base")],
            access: ModuleRelationAccess::empty()
        })),
        opens.next()
    );
    assert!(opens.next().is_none());

    let mut uses = match events.next().unwrap().unwrap() {
        ModuleEvent::Uses(uses) => uses,
        other => panic!("expected uses, got {:?}", other),
    };
    assert_eq!(Some(Ok(text("java/lang/Runnable"))), uses.next());
    assert!(uses.next().is_none());

    let mut provides = match events.next().unwrap().unwrap() {
        ModuleEvent::Provides(provides) => provides,
        other => panic!("expected provides, got {:?}", other),
    };
    assert_eq!(
        Some(Ok(ModuleProvidesEvent {
            service: text("java/lang/Runnable"),
            providers: vec![text("pkg/ClassInPackage")],
        })),
        provides.next()
    );
    assert!(provides.next().is_none());

    assert!(events.next().is_none());
}

fn inner_class_host() -> Vec<u8> {
    let mut class = ClassBuilder::new("TestInnerClass", Some("java/lang/Object"), PUBLIC_SUPER);
    class.major = 65;
    let inner = class.pool.class("TestInnerClass$Inner");
    let outer = class.this_class;
    let simple = class.pool.utf8("Inner");
    class.add_attribute("NestMembers", &u16s(&[1, inner]));
    class.add_attribute("InnerClasses", &u16s(&[1, inner, outer, simple, 0x000a]));
    class.build()
}

#[test]
fn test_nest_host() {
    let mut class = ClassBuilder::new("TestInnerClass$Inner", Some("java/lang/Object"), 0x0020);
    class.major = 65;
    let host = class.pool.class("TestInnerClass");
    class.add_attribute("NestHost", &host.to_be_bytes());
    let bytecode = class.build();
    let reader = open(&bytecode);
    assert_eq!(text("TestInnerClass"), reader.events().unwrap().nest_host().unwrap().unwrap());
}

#[test]
fn test_nest_members() {
    let bytecode = inner_class_host();
    let reader = open(&bytecode);
    let mut members = reader.events().unwrap().nest_members();
    assert_eq!(vec![text("TestInnerClass$Inner")], drain(|| members.next()).unwrap());
}

#[test]
fn test_outer_class() {
    let mut class = ClassBuilder::new("TestLocalClass$1Local", Some("java/lang/Object"), 0x0020);
    let owner = class.pool.class("TestLocalClass");
    let method = class.pool.name_and_type("test", "()V");
    class.add_attribute("EnclosingMethod", &u16s(&[owner, method]));
    let bytecode = class.build();
    let reader = open(&bytecode);
    assert_eq!(
        ClassOuterClassEvent {
            owner: text("TestLocalClass"),
            method_name: Some(text("test")),
            method_desc: Some(text("()V")),
        },
        reader.events().unwrap().outer_class().unwrap().unwrap()
    );
}

struct Values {
    count: u16,
    bytes: Vec<u8>,
}

impl Values {
    fn new() -> Values {
        Values { count: 0, bytes: Vec::new() }
    }

    fn add(&mut self, pool: &mut PoolBuilder, name: &str, value: &[u8]) {
        let name = pool.utf8(name);
        self.bytes.extend_from_slice(&name.to_be_bytes());
        self.bytes.extend_from_slice(value);
        self.count += 1;
    }

    fn annotation(&self, pool: &mut PoolBuilder, desc: &str) -> Vec<u8> {
        let desc = pool.utf8(desc);
        let mut bytes = u16s(&[desc, self.count]);
        bytes.extend_from_slice(&self.bytes);
        bytes
    }
}

fn constant(tag: u8, index: u16) -> Vec<u8> {
    let mut bytes = vec![tag];
    bytes.extend_from_slice(&index.to_be_bytes());
    bytes
}

fn enum_value(pool: &mut PoolBuilder, desc: &str, name: &str) -> Vec<u8> {
    let desc = pool.utf8(desc);
    let name = pool.utf8(name);
    let mut bytes = vec![b'e'];
    bytes.extend(u16s(&[desc, name]));
    bytes
}

fn array(values: &[Vec<u8>]) -> Vec<u8> {
    let mut bytes = vec![b'['];
    bytes.extend_from_slice(&(values.len() as u16).to_be_bytes());
    for value in values {
        bytes.extend_from_slice(value);
    }
    bytes
}

fn nested(annotation: &[u8]) -> Vec<u8> {
    let mut bytes = vec![b'@'];
    bytes.extend_from_slice(annotation);
    bytes
}

fn annotations(list: &[Vec<u8>]) -> Vec<u8> {
    let mut bytes = (list.len() as u16).to_be_bytes().to_vec();
    for annotation in list {
        bytes.extend_from_slice(annotation);
    }
    bytes
}

fn test_annotations_class() -> Vec<u8> {
    let mut class = ClassBuilder::new("TestAnnotations", Some("java/lang/Object"), PUBLIC_SUPER);
    class.major = 65;
    let pool = &mut class.pool;
    let mut visible = Values::new();
    let one = pool.integer(1);
    visible.add(pool, "booleanValue", &constant(b'Z', one));
    visible.add(pool, "byteValue", &constant(b'B', one));
    let a = pool.integer('a' as i32);
    visible.add(pool, "charValue", &constant(b'C', a));
    let two = pool.integer(2);
    visible.add(pool, "shortValue", &constant(b'S', two));
    let three = pool.integer(3);
    visible.add(pool, "intValue", &constant(b'I', three));
    let four = pool.long(4);
    visible.add(pool, "longValue", &constant(b'J', four));
    let five = pool.float(5.0);
    visible.add(pool, "floatValue", &constant(b'F', five));
    let six = pool.double(6.0);
    visible.add(pool, "doubleValue", &constant(b'D', six));
    let hello_world = pool.utf8("Hello World");
    visible.add(pool, "stringValue", &constant(b's', hello_world));
    let string_class = pool.utf8("Ljava/lang/String;");
    visible.add(pool, "classValue", &constant(b'c', string_class));
    let field = enum_value(pool, "Ljava/lang/annotation/ElementType;", "FIELD");
    visible.add(pool, "enumValue", &field);
    let mut removal = Values::new();
    removal.add(pool, "forRemoval", &constant(b'Z', one));
    let deprecated = removal.annotation(pool, "Ljava/lang/Deprecated;");
    visible.add(pool, "annotationValue", &nested(&deprecated));
    let visible = visible.annotation(pool, "LVisibleAnnotation;");

    let mut invisible = Values::new();
    let zero = pool.integer(0);
    invisible.add(pool, "booleans", &array(&[constant(b'Z', zero), constant(b'Z', one)]));
    invisible.add(pool, "bytes", &array(&[constant(b'B', zero)]));
    let b = pool.integer('b' as i32);
    invisible.add(pool, "chars", &array(&[constant(b'C', a), constant(b'C', b)]));
    invisible.add(pool, "shorts", &array(&[constant(b'S', one)]));
    invisible.add(pool, "ints", &array(&[constant(b'I', one), constant(b'I', two)]));
    let forty_two = pool.long(42);
    let sixty_nine = pool.long(69);
    invisible.add(pool, "longs", &array(&[constant(b'J', forty_two), constant(b'J', sixty_nine)]));
    let float = pool.float(420.69);
    invisible.add(pool, "floats", &array(&[constant(b'F', float)]));
    let double = pool.double(-100.0);
    invisible.add(pool, "doubles", &array(&[constant(b'D', double)]));
    let hello = pool.utf8("Hello");
    let world = pool.utf8("World");
    invisible.add(pool, "strings", &array(&[constant(b's', hello), constant(b's', world)]));
    let class_class = pool.utf8("Ljava/lang/Class;");
    let void = pool.utf8("V");
    let strings = pool.utf8("[Ljava/lang/String;");
    invisible.add(
        pool,
        "classes",
        &array(&[constant(b'c', class_class), constant(b'c', void), constant(b'c', strings)]),
    );
    let method = enum_value(pool, "Ljava/lang/annotation/ElementType;", "METHOD");
    invisible.add(pool, "enums", &array(&[field.clone(), method]));
    let plain = Values::new().annotation(pool, "Ljava/lang/Deprecated;");
    invisible.add(pool, "annotations", &array(&[nested(&plain), nested(&plain)]));
    let invisible = invisible.annotation(pool, "LInvisibleAnnotation;");

    class.add_attribute("RuntimeVisibleAnnotations", &annotations(&[visible]));
    class.add_attribute("RuntimeInvisibleAnnotations", &annotations(&[invisible]));

    let visible_type = class.pool.utf8("LVisibleTypeAnnotation;");
    let invisible_type = class.pool.utf8("LInvisibleTypeAnnotation;");
    let mut visible_types: Vec<Vec<u8>> = Vec::new();
    let mut with = |target: &[u8], path: &[u8], desc: u16| {
        let mut bytes = target.to_vec();
        bytes.push((path.len() / 2) as u8);
        bytes.extend_from_slice(path);
        bytes.extend(u16s(&[desc, 0]));
        bytes
    };
    visible_types.push(with(&[0x10, 0xff, 0xff], &[], visible_type));
    visible_types.push(with(&[0x00, 0], &[], visible_type));
    visible_types.push(with(&[0x11, 1, 1], &[3, 0], visible_type));
    visible_types.push(with(&[0x11, 3, 1], &[3, 0, 2, 0], visible_type));
    visible_types.push(with(&[0x11, 4, 1], &[3, 0, 2, 0], visible_type));
    let invisible_types = vec![
        with(&[0x10, 0, 0], &[], invisible_type),
        with(&[0x11, 0, 0], &[], invisible_type),
        with(&[0x11, 2, 1], &[3, 0], invisible_type),
    ];
    class.add_attribute("RuntimeVisibleTypeAnnotations", &annotations(&visible_types));
    class.add_attribute("RuntimeInvisibleTypeAnnotations", &annotations(&invisible_types));
    class.build()
}

fn value(name: &str, value: AnnotationValue) -> (JavaText, AnnotationValue) {
    (text(name), value)
}

#[test]
fn test_annotations() {
    let bytecode = test_annotations_class();
    let reader = open(&bytecode);
    let mut found = reader.events().unwrap().annotations();
    assert_eq!(
        vec![
            AnnotationEvent {
                visible: true,
                annotation: AnnotationNode {
                    desc: text("LVisibleAnnotation;"),
                    values: vec![
                        value("booleanValue", AnnotationValue::Boolean(true)),
                        value("byteValue", AnnotationValue::Byte(1)),
                        value("charValue", AnnotationValue::Char('a' as u16)),
                        value("shortValue", AnnotationValue::Short(2)),
                        value("intValue", AnnotationValue::Int(3)),
                        value("longValue", AnnotationValue::Long(4)),
                        value("floatValue", AnnotationValue::Float(5.0f32.to_bits())),
                        value("doubleValue", AnnotationValue::Double(6.0f64.to_bits())),
                        value("stringValue", AnnotationValue::String(text("Hello World"))),
                        value("classValue", AnnotationValue::Class(text("Ljava/lang/String;"))),
                        value(
                            "enumValue",
                            AnnotationValue::Enum {
                                desc: text("Ljava/lang/annotation/ElementType;"),
                                name: text("FIELD")
                            }
                        ),
                        value(
                            "annotationValue",
                            AnnotationValue::Annotation(AnnotationNode {
                                desc: text("Ljava/lang/Deprecated;"),
                                values: vec![value("forRemoval", AnnotationValue::Boolean(true))],
                            })
                        )
                    ]
                }
            },
            AnnotationEvent {
                visible: false,
                annotation: AnnotationNode {
                    desc: text("LInvisibleAnnotation;"),
                    values: vec![
                        value(
                            "booleans",
                            AnnotationValue::Array(vec![
                                AnnotationValue::Boolean(false),
                                AnnotationValue::Boolean(true)
                            ])
                        ),
                        value("bytes", AnnotationValue::Array(vec![AnnotationValue::Byte(0)])),
                        value(
                            "chars",
                            AnnotationValue::Array(vec![
                                AnnotationValue::Char('a' as u16),
                                AnnotationValue::Char('b' as u16)
                            ])
                        ),
                        value("shorts", AnnotationValue::Array(vec![AnnotationValue::Short(1)])),
                        value(
                            "ints",
                            AnnotationValue::Array(vec![AnnotationValue::Int(1), AnnotationValue::Int(2)])
                        ),
                        value(
                            "longs",
                            AnnotationValue::Array(vec![AnnotationValue::Long(42), AnnotationValue::Long(69)])
                        ),
                        value(
                            "floats",
                            AnnotationValue::Array(vec![AnnotationValue::Float(420.69f32.to_bits())])
                        ),
                        value(
                            "doubles",
                            AnnotationValue::Array(vec![AnnotationValue::Double((-100.0f64).to_bits())])
                        ),
                        value(
                            "strings",
                            AnnotationValue::Array(vec![
                                AnnotationValue::String(text("Hello")),
                                AnnotationValue::String(text("World"))
                            ])
                        ),
                        value(
                            "classes",
                            AnnotationValue::Array(vec![
                                AnnotationValue::Class(text("Ljava/lang/Class;")),
                                AnnotationValue::Class(text("V")),
                                AnnotationValue::Class(text("[Ljava/lang/String;"))
                            ])
                        ),
                        value(
                            "enums",
                            AnnotationValue::Array(vec![
                                AnnotationValue::Enum {
                                    desc: text("Ljava/lang/annotation/ElementType;"),
                                    name: text("FIELD")
                                },
                                AnnotationValue::Enum {
                                    desc: text("Ljava/lang/annotation/ElementType;"),
                                    name: text("METHOD")
                                }
                            ])
                        ),
                        value(
                            "annotations",
                            AnnotationValue::Array(vec![
                                AnnotationValue::Annotation(AnnotationNode {
                                    desc: text("Ljava/lang/Deprecated;"),
                                    values: Vec::new()
                                }),
                                AnnotationValue::Annotation(AnnotationNode {
                                    desc: text("Ljava/lang/Deprecated;"),
                                    values: Vec::new()
                                })
                            ])
                        )
                    ],
                }
            }
        ],
        drain(|| found.next()).unwrap()
    );
}

fn type_annotation(
    visible: bool,
    type_ref: TypeReference,
    path: &str,
    desc: &str,
) -> AnnotationEvent<TypeAnnotationNode> {
    AnnotationEvent {
        visible,
        annotation: TypeAnnotationNode {
            type_ref,
            type_path: TypePath::parse(path).unwrap(),
            desc: text(desc),
            values: Vec::new(),
        },
    }
}

#[test]
fn test_type_annotations() {
    let bytecode = test_annotations_class();
    let reader = open(&bytecode);
    let mut found = reader.events().unwrap().type_annotations();
    assert_eq!(
        vec![
            AnnotationEvent {
                visible: true,
                annotation: TypeAnnotationNode {
                    type_ref: TypeReference::ClassExtends { interface_index: None },
                    type_path: TypePath::default(),
                    desc: text("LVisibleTypeAnnotation;"),
                    values: Vec::new(),
                }
            },
            type_annotation(
                true,
                TypeReference::ClassTypeParameter { param_index: 0 },
                "",
                "LVisibleTypeAnnotation;"
            ),
            type_annotation(
                true,
                TypeReference::ClassTypeParameterBound { param_index: 1, bound_index: 1 },
                "0;",
                "LVisibleTypeAnnotation;"
            ),
            type_annotation(
                true,
                TypeReference::ClassTypeParameterBound { param_index: 3, bound_index: 1 },
                "0;*",
                "LVisibleTypeAnnotation;"
            ),
            type_annotation(
                true,
                TypeReference::ClassTypeParameterBound { param_index: 4, bound_index: 1 },
                "0;*",
                "LVisibleTypeAnnotation;"
            ),
            type_annotation(
                false,
                TypeReference::ClassExtends { interface_index: Some(0) },
                "",
                "LInvisibleTypeAnnotation;"
            ),
            type_annotation(
                false,
                TypeReference::ClassTypeParameterBound { param_index: 0, bound_index: 0 },
                "",
                "LInvisibleTypeAnnotation;"
            ),
            type_annotation(
                false,
                TypeReference::ClassTypeParameterBound { param_index: 2, bound_index: 1 },
                "0;",
                "LInvisibleTypeAnnotation;"
            ),
        ],
        drain(|| found.next()).unwrap()
    );
}

#[test]
fn test_permitted_subclasses() {
    let mut class = ClassBuilder::new("TestSealedClass", Some("java/lang/Object"), 0x0421);
    class.major = 65;
    let foo = class.pool.class("TestSealedClass$Foo");
    let bar = class.pool.class("TestSealedClass$Bar");
    class.add_attribute("PermittedSubclasses", &u16s(&[2, foo, bar]));
    let bytecode = class.build();
    let reader = open(&bytecode);
    let mut subclasses = reader.events().unwrap().permitted_subclasses();
    assert_eq!(
        vec![text("TestSealedClass$Foo"), text("TestSealedClass$Bar")],
        drain(|| subclasses.next()).unwrap()
    );
}

#[test]
fn test_inner_classes() {
    let bytecode = inner_class_host();
    let reader = open(&bytecode);
    let mut inner = reader.events().unwrap().inner_classes();
    assert_eq!(
        vec![ClassInnerClassEvent {
            name: text("TestInnerClass$Inner"),
            inner_name: Some(text("Inner")),
            outer_name: Some(text("TestInnerClass")),
            access: InnerClassAccess::from_bits_retain(InnerClassAccess::PRIVATE | InnerClassAccess::STATIC)
        }],
        drain(|| inner.next()).unwrap()
    );
}

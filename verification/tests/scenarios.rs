use classfile::{
    AnnotationEvent, AnnotationNode, AnnotationValue, BootstrapMethodArgument, ClassAccess, ClassClassEvent,
    ClassEvent, ClassFileError, ClassFileResult, ClassReader, ClassReaderFlags, CodeData, ConstantPoolTag,
    FieldEvent, Frame, FrameValue, HandleKind, JavaText, Label, LdcConstant, MethodEvent, MethodReaderEvents,
    ModuleEvent, Opcode, RecordComponentEvent, UnknownAttribute, LATEST_MAJOR_VERSION,
    MAX_ANNOTATION_NESTING,
};
use java_string::JavaStr;

// What the tests build class files with.

#[allow(dead_code)]
struct PoolBuilder {
    bytes: Vec<u8>,
    count: u16,
}

#[allow(dead_code)]
impl PoolBuilder {
    fn new() -> PoolBuilder {
        PoolBuilder { bytes: Vec::new(), count: 1 }
    }

    fn entry(&mut self, tag: u8, body: &[u8], slots: u16) -> u16 {
        let index = self.count;
        self.bytes.push(tag);
        self.bytes.extend_from_slice(body);
        self.count += slots;
        index
    }

    fn utf8_bytes(&mut self, text: &[u8]) -> u16 {
        let mut body = (text.len() as u16).to_be_bytes().to_vec();
        body.extend_from_slice(text);
        self.entry(1, &body, 1)
    }

    fn utf8(&mut self, text: &str) -> u16 {
        self.utf8_bytes(text.as_bytes())
    }

    fn integer(&mut self, value: i32) -> u16 {
        self.entry(3, &value.to_be_bytes(), 1)
    }

    fn float(&mut self, value: f32) -> u16 {
        self.entry(4, &value.to_bits().to_be_bytes(), 1)
    }

    fn long(&mut self, value: i64) -> u16 {
        self.entry(5, &value.to_be_bytes(), 2)
    }

    fn double(&mut self, value: f64) -> u16 {
        self.entry(6, &value.to_bits().to_be_bytes(), 2)
    }

    fn named(&mut self, tag: u8, name: &str) -> u16 {
        let name = self.utf8(name);
        self.entry(tag, &name.to_be_bytes(), 1)
    }

    fn class(&mut self, name: &str) -> u16 {
        self.named(7, name)
    }

    fn string(&mut self, text: &str) -> u16 {
        self.named(8, text)
    }

    fn method_type(&mut self, desc: &str) -> u16 {
        self.named(16, desc)
    }

    fn module(&mut self, name: &str) -> u16 {
        self.named(19, name)
    }

    fn package(&mut self, name: &str) -> u16 {
        self.named(20, name)
    }

    fn pair(&mut self, tag: u8, first: u16, second: u16) -> u16 {
        let mut body = first.to_be_bytes().to_vec();
        body.extend_from_slice(&second.to_be_bytes());
        self.entry(tag, &body, 1)
    }

    fn name_and_type(&mut self, name: &str, desc: &str) -> u16 {
        let name = self.utf8(name);
        let desc = self.utf8(desc);
        self.pair(12, name, desc)
    }

    fn member(&mut self, tag: u8, owner: &str, name: &str, desc: &str) -> u16 {
        let owner = self.class(owner);
        let name_and_type = self.name_and_type(name, desc);
        self.pair(tag, owner, name_and_type)
    }

    fn field_ref(&mut self, owner: &str, name: &str, desc: &str) -> u16 {
        self.member(9, owner, name, desc)
    }

    fn method_ref(&mut self, owner: &str, name: &str, desc: &str) -> u16 {
        self.member(10, owner, name, desc)
    }

    fn interface_method_ref(&mut self, owner: &str, name: &str, desc: &str) -> u16 {
        self.member(11, owner, name, desc)
    }

    fn method_handle(&mut self, kind: u8, reference: u16) -> u16 {
        let mut body = vec![kind];
        body.extend_from_slice(&reference.to_be_bytes());
        self.entry(15, &body, 1)
    }

    fn dynamic(&mut self, bootstrap: u16, name: &str, desc: &str) -> u16 {
        let name_and_type = self.name_and_type(name, desc);
        self.pair(17, bootstrap, name_and_type)
    }

    fn invoke_dynamic(&mut self, bootstrap: u16, name: &str, desc: &str) -> u16 {
        let name_and_type = self.name_and_type(name, desc);
        self.pair(18, bootstrap, name_and_type)
    }
}

#[allow(dead_code)]
struct ClassBuilder {
    minor: u16,
    major: u16,
    pool: PoolBuilder,
    access: u16,
    this_class: u16,
    super_class: u16,
    interfaces: Vec<u16>,
    fields: Vec<Vec<u8>>,
    methods: Vec<Vec<u8>>,
    attributes: Vec<Vec<u8>>,
}

#[allow(dead_code)]
impl ClassBuilder {
    fn new(name: &str, super_name: Option<&str>, access: u16) -> ClassBuilder {
        let mut pool = PoolBuilder::new();
        let this_class = pool.class(name);
        let super_class = match super_name {
            Some(super_name) => pool.class(super_name),
            None => 0,
        };
        ClassBuilder {
            minor: 0,
            major: 52,
            pool,
            access,
            this_class,
            super_class,
            interfaces: Vec::new(),
            fields: Vec::new(),
            methods: Vec::new(),
            attributes: Vec::new(),
        }
    }

    fn attribute(&mut self, name: &str, payload: &[u8]) -> Vec<u8> {
        let name = self.pool.utf8(name);
        let mut bytes = name.to_be_bytes().to_vec();
        bytes.extend_from_slice(&(payload.len() as u32).to_be_bytes());
        bytes.extend_from_slice(payload);
        bytes
    }

    fn add_attribute(&mut self, name: &str, payload: &[u8]) {
        let attribute = self.attribute(name, payload);
        self.attributes.push(attribute);
    }

    fn member(&mut self, access: u16, name: &str, desc: &str, attributes: &[Vec<u8>]) -> Vec<u8> {
        let name = self.pool.utf8(name);
        let desc = self.pool.utf8(desc);
        let mut bytes = access.to_be_bytes().to_vec();
        bytes.extend_from_slice(&name.to_be_bytes());
        bytes.extend_from_slice(&desc.to_be_bytes());
        bytes.extend_from_slice(&(attributes.len() as u16).to_be_bytes());
        for attribute in attributes {
            bytes.extend_from_slice(attribute);
        }
        bytes
    }

    fn add_field(&mut self, access: u16, name: &str, desc: &str, attributes: &[Vec<u8>]) {
        let field = self.member(access, name, desc, attributes);
        self.fields.push(field);
    }

    fn add_method(&mut self, access: u16, name: &str, desc: &str, attributes: &[Vec<u8>]) {
        let method = self.member(access, name, desc, attributes);
        self.methods.push(method);
    }

    fn code(
        &mut self,
        max_stack: u16,
        max_locals: u16,
        code: &[u8],
        handlers: &[[u16; 4]],
        attributes: &[Vec<u8>],
    ) -> Vec<u8> {
        let mut payload = max_stack.to_be_bytes().to_vec();
        payload.extend_from_slice(&max_locals.to_be_bytes());
        payload.extend_from_slice(&(code.len() as u32).to_be_bytes());
        payload.extend_from_slice(code);
        payload.extend_from_slice(&(handlers.len() as u16).to_be_bytes());
        for handler in handlers {
            for part in handler {
                payload.extend_from_slice(&part.to_be_bytes());
            }
        }
        payload.extend_from_slice(&(attributes.len() as u16).to_be_bytes());
        for attribute in attributes {
            payload.extend_from_slice(attribute);
        }
        self.attribute("Code", &payload)
    }

    fn add_code_method(&mut self, name: &str, code: &[u8], code_attributes: &[Vec<u8>]) {
        let code = self.code(2, 3, code, &[], code_attributes);
        self.add_method(0x0001, name, "()V", &[code]);
    }

    fn build(&self) -> Vec<u8> {
        let mut bytes = vec![0xca, 0xfe, 0xba, 0xbe];
        bytes.extend_from_slice(&self.minor.to_be_bytes());
        bytes.extend_from_slice(&self.major.to_be_bytes());
        bytes.extend_from_slice(&self.pool.count.to_be_bytes());
        bytes.extend_from_slice(&self.pool.bytes);
        bytes.extend_from_slice(&self.access.to_be_bytes());
        bytes.extend_from_slice(&self.this_class.to_be_bytes());
        bytes.extend_from_slice(&self.super_class.to_be_bytes());
        bytes.extend_from_slice(&(self.interfaces.len() as u16).to_be_bytes());
        for interface in &self.interfaces {
            bytes.extend_from_slice(&interface.to_be_bytes());
        }
        bytes.extend_from_slice(&(self.fields.len() as u16).to_be_bytes());
        for field in &self.fields {
            bytes.extend_from_slice(field);
        }
        bytes.extend_from_slice(&(self.methods.len() as u16).to_be_bytes());
        for method in &self.methods {
            bytes.extend_from_slice(method);
        }
        bytes.extend_from_slice(&(self.attributes.len() as u16).to_be_bytes());
        for attribute in &self.attributes {
            bytes.extend_from_slice(attribute);
        }
        bytes
    }
}

#[allow(dead_code)]
fn u16s(values: &[u16]) -> Vec<u8> {
    let mut bytes = Vec::new();
    for value in values {
        bytes.extend_from_slice(&value.to_be_bytes());
    }
    bytes
}

#[allow(dead_code)]
fn text(s: &str) -> JavaText {
    JavaText { bytes: JavaStr::from_str(s).as_bytes().to_vec() }
}

#[allow(dead_code)]
fn drain<T>(mut next: impl FnMut() -> Option<ClassFileResult<T>>) -> ClassFileResult<Vec<T>> {
    let mut items = Vec::new();
    while let Some(item) = next() {
        items.push(item?);
    }
    Ok(items)
}

#[allow(dead_code)]
fn open(bytes: &[u8]) -> ClassReader<'_> {
    ClassReader::new(bytes, ClassReaderFlags::empty()).unwrap()
}

const JAVA_VERSION: &str = "21.0.2";

fn module_info() -> Vec<u8> {
    let mut class = ClassBuilder::new("module-info", None, 0x8000);
    class.major = 65;
    let name = class.pool.module("test");
    let version = class.pool.utf8("1.2.3");
    let java_version = class.pool.utf8(JAVA_VERSION);
    let base = class.pool.module("java.base");
    let logging = class.pool.module("java.logging");
    let http = class.pool.module("java.net.http");
    let pkg = class.pool.package("pkg");
    let pkg2 = class.pool.package("pkg2");
    let runnable = class.pool.class("java/lang/Runnable");
    let provider = class.pool.class("pkg/ClassInPackage");
    let mut payload = u16s(&[name, 0, version]);
    payload.extend(u16s(&[3, base, 0, java_version, logging, 0x0040, java_version, http, 0x0020, java_version]));
    payload.extend(u16s(&[2, pkg, 0, 0, pkg2, 0, 1, base]));
    payload.extend(u16s(&[2, pkg2, 0, 0, pkg, 0, 1, base]));
    payload.extend(u16s(&[1, runnable]));
    payload.extend(u16s(&[1, runnable, 1, provider]));
    class.add_attribute("Module", &payload);
    class.build()
}

struct Values {
    count: u16,
    bytes: Vec<u8>,
}

impl Values {
    fn new() -> Values {
        Values { count: 0, bytes: Vec::new() }
    }

    fn add(&mut self, pool: &mut PoolBuilder, name: &str, value: &[u8]) {
        let name = pool.utf8(name);
        self.bytes.extend_from_slice(&name.to_be_bytes());
        self.bytes.extend_from_slice(value);
        self.count += 1;
    }

    fn annotation(&self, pool: &mut PoolBuilder, desc: &str) -> Vec<u8> {
        let desc = pool.utf8(desc);
        let mut bytes = u16s(&[desc, self.count]);
        bytes.extend_from_slice(&self.bytes);
        bytes
    }
}

fn constant(tag: u8, index: u16) -> Vec<u8> {
    let mut bytes = vec![tag];
    bytes.extend_from_slice(&index.to_be_bytes());
    bytes
}

fn enum_value(pool: &mut PoolBuilder, desc: &str, name: &str) -> Vec<u8> {
    let desc = pool.utf8(desc);
    let name = pool.utf8(name);
    let mut bytes = vec![b'e'];
    bytes.extend(u16s(&[desc, name]));
    bytes
}

fn array(values: &[Vec<u8>]) -> Vec<u8> {
    let mut bytes = vec![b'['];
    bytes.extend_from_slice(&(values.len() as u16).to_be_bytes());
    for value in values {
        bytes.extend_from_slice(value);
    }
    bytes
}

fn nested(annotation: &[u8]) -> Vec<u8> {
    let mut bytes = vec![b'@'];
    bytes.extend_from_slice(annotation);
    bytes
}

fn annotations(list: &[Vec<u8>]) -> Vec<u8> {
    let mut bytes = (list.len() as u16).to_be_bytes().to_vec();
    for annotation in list {
        bytes.extend_from_slice(annotation);
    }
    bytes
}


const PUBLIC_SUPER: u16 = 0x0021;

fn s(text: &JavaText) -> String {
    String::from_utf8_lossy(&text.bytes).into_owned()
}

fn frame_value(value: &FrameValue) -> String {
    match value {
        FrameValue::Class(name) => format!("class {}", s(name)),
        FrameValue::Uninitialized(label) => format!("new at L{}", label.number),
        other => format!("{:?}", other),
    }
}

fn frame_values(values: &[FrameValue]) -> String {
    values.iter().map(frame_value).collect::<Vec<_>>().join(", ")
}

fn frame(frame: &Frame) -> String {
    match frame {
        Frame::Full { locals, stack } => format!("full [{}] [{}]", frame_values(locals), frame_values(stack)),
        Frame::Append { locals } => format!("append [{}]", frame_values(locals)),
        Frame::Chop { num_locals } => format!("chop {}", num_locals),
        Frame::Same => "same".to_string(),
        Frame::Same1 { stack_value } => format!("same1 {}", frame_value(stack_value)),
        Frame::New { .. } => "new".to_string(),
    }
}

fn labels(labels: &[Label]) -> String {
    labels.iter().map(|label| format!("L{}", label.number)).collect::<Vec<_>>().join(" ")
}

fn summary(event: MethodEvent) -> ClassFileResult<String> {
    Ok(match event {
        MethodEvent::Deprecated => "deprecated".to_string(),
        MethodEvent::Parameters(mut parameters) => {
            let found = drain(|| parameters.next())?;
            let names: Vec<String> = found
                .iter()
                .map(|p| format!("{}:{:#x}", p.name.as_ref().map(s).unwrap_or_default(), p.access.bits))
                .collect();
            format!("parameters {}", names.join(" "))
        }
        MethodEvent::AnnotationDefault(value) => format!("default {:?}", value),
        MethodEvent::Annotations(mut annotations) => {
            let found = drain(|| annotations.next())?;
            let names: Vec<String> =
                found.iter().map(|a| format!("{}{}", if a.visible { "+" } else { "-" }, s(&a.annotation.desc))).collect();
            format!("annotations {}", names.join(" "))
        }
        MethodEvent::TypeAnnotations(mut annotations) => {
            let found = drain(|| annotations.next())?;
            format!("type annotations {}", found.len())
        }
        MethodEvent::AnnotableParameterCount(count) => {
            format!("annotable {} {}", count.count, count.visible)
        }
        MethodEvent::ParameterAnnotations(mut annotations) => {
            let found = drain(|| annotations.next())?;
            let names: Vec<String> = found
                .iter()
                .map(|a| format!("{}{}{}", a.parameter, if a.visible { "+" } else { "-" }, s(&a.annotation.desc)))
                .collect();
            format!("parameter annotations {}", names.join(" "))
        }
        MethodEvent::Attributes(mut attributes) => {
            let found = drain(|| attributes.next())?;
            let names: Vec<String> = found.iter().map(|a| format!("{}={:?}", s(&a.name), a.data)).collect();
            format!("attributes {}", names.join(" "))
        }
        MethodEvent::Code { .. } => "code".to_string(),
        MethodEvent::Frame(found) => format!("frame {}", frame(&found)),
        MethodEvent::Insn(opcode) => format!("{:?}", opcode),
        MethodEvent::BIPushInsn(value) => format!("BIPush {}", value),
        MethodEvent::SIPushInsn(value) => format!("SIPush {}", value),
        MethodEvent::NewArrayInsn(ty) => format!("NewArray {:?}", ty),
        MethodEvent::VarInsn { opcode, var_index } => format!("{:?} {}", opcode, var_index),
        MethodEvent::TypeInsn { opcode, ty } => format!("{:?} {}", opcode, s(&ty)),
        MethodEvent::FieldInsn { opcode, owner, name, desc } => {
            format!("{:?} {}.{} {}", opcode, s(&owner), s(&name), s(&desc))
        }
        MethodEvent::MethodInsn { opcode, owner, name, desc, is_interface } => {
            format!("{:?} {}.{} {} {}", opcode, s(&owner), s(&name), s(&desc), is_interface)
        }
        MethodEvent::InvokeDynamicInsn {
            name,
            desc,
            bootstrap_method_handle,
            bootstrap_method_arguments,
        } => format!(
            "InvokeDynamic {} {} {:?} {}.{} {}",
            s(&name),
            s(&desc),
            bootstrap_method_handle.kind,
            s(&bootstrap_method_handle.owner),
            s(&bootstrap_method_handle.name),
            bootstrap_method_arguments.len()
        ),
        MethodEvent::JumpInsn { opcode, label } => format!("{:?} L{}", opcode, label.number),
        MethodEvent::Label(label) => format!("L{}", label.number),
        MethodEvent::LdcInsn(constant) => match constant {
            LdcConstant::String(value) => format!("Ldc string {}", s(&value)),
            LdcConstant::ConstantDynamic(constant) => format!(
                "Ldc dynamic {} {} {}",
                s(&constant.name),
                s(&constant.bootstrap_method.name),
                constant.bootstrap_method_arguments.len()
            ),
            other => format!("Ldc {:?}", other),
        },
        MethodEvent::IIncInsn { var_index, increment } => format!("IInc {} {}", var_index, increment),
        MethodEvent::TableSwitchInsn { low, high, dflt, labels: targets } => {
            format!("TableSwitch {}..{} L{} [{}]", low, high, dflt.number, labels(&targets))
        }
        MethodEvent::LookupSwitchInsn { dflt, values } => {
            let pairs: Vec<String> = values.iter().map(|(v, l)| format!("{}:L{}", v, l.number)).collect();
            format!("LookupSwitch L{} [{}]", dflt.number, pairs.join(" "))
        }
        MethodEvent::MultiANewArrayInsn { desc, dimensions } => {
            format!("MultiANewArray {} {}", s(&desc), dimensions)
        }
        MethodEvent::InsnAnnotations(mut annotations) => {
            let found = drain(|| annotations.next())?;
            let names: Vec<String> = found
                .iter()
                .map(|a| format!("{}{}", if a.visible { "+" } else { "-" }, s(&a.annotation.desc)))
                .collect();
            format!("insn annotations {}", names.join(" "))
        }
        MethodEvent::LineNumber { line, start } => format!("line {} L{}", line, start.number),
        MethodEvent::LocalVariables(mut variables) => {
            let found = drain(|| variables.next())?;
            let names: Vec<String> = found
                .iter()
                .map(|v| {
                    format!(
                        "{} {} {} L{}-L{} @{}",
                        s(&v.name),
                        s(&v.desc),
                        v.signature.as_ref().map(s).unwrap_or_default(),
                        v.start.number,
                        v.end.number,
                        v.index
                    )
                })
                .collect();
            format!("locals [{}]", names.join("; "))
        }
        MethodEvent::LocalVariableAnnotations(mut annotations) => {
            let found = drain(|| annotations.next())?;
            let names: Vec<String> = found
                .iter()
                .map(|a| {
                    let ranges: Vec<String> = a
                        .ranges
                        .iter()
                        .map(|(from, to, index)| format!("L{}-L{}@{}", from.number, to.number, index))
                        .collect();
                    format!("{} {}", s(&a.annotation.desc), ranges.join(","))
                })
                .collect();
            format!("local annotations [{}]", names.join("; "))
        }
        MethodEvent::TryCatchBlocks(mut blocks) => {
            let found = drain(|| blocks.next())?;
            let names: Vec<String> = found
                .iter()
                .map(|b| {
                    format!(
                        "L{}-L{} L{} {}",
                        b.start.number,
                        b.end.number,
                        b.handler.number,
                        b.ty.as_ref().map(s).unwrap_or_default()
                    )
                })
                .collect();
            format!("handlers [{}]", names.join("; "))
        }
        MethodEvent::TryCatchBlockAnnotations(mut annotations) => {
            let found = drain(|| annotations.next())?;
            let names: Vec<String> = found
                .iter()
                .map(|a| format!("{} {}", a.try_catch_block_index, s(&a.annotation.desc)))
                .collect();
            format!("handler annotations [{}]", names.join("; "))
        }
        MethodEvent::CodeAttributes(mut attributes) => {
            let found = drain(|| attributes.next())?;
            let names: Vec<String> = found.iter().map(|a| format!("{}={:?}", s(&a.name), a.data)).collect();
            format!("code attributes {}", names.join(" "))
        }
        MethodEvent::Maxs(maxs) => format!("maxs {} {}", maxs.max_stack, maxs.max_locals),
        _ => "other".to_string(),
    })
}

fn method_log(mut events: MethodReaderEvents<'_, '_>) -> ClassFileResult<Vec<String>> {
    let mut log = Vec::new();
    while let Some(event) = events.next() {
        log.push(summary(event?)?);
    }
    Ok(log)
}

fn names(found: ClassFileResult<Vec<JavaText>>) -> ClassFileResult<String> {
    Ok(found?.iter().map(s).collect::<Vec<_>>().join(" "))
}

/// Walks every event of a class and of whatever its events hold.
fn walk(bytes: &[u8], flags: u8) -> ClassFileResult<Vec<String>> {
    let reader = ClassReader::new(bytes, ClassReaderFlags::from_bits_retain(flags))?;
    let mut log = Vec::new();
    let mut events = reader.events()?;
    while let Some(event) = events.next() {
        match event? {
            ClassEvent::Class(header) => log.push(format!(
                "class {} {} {}.{} {:#x} [{}] {}",
                s(&header.name),
                header.super_name.as_ref().map(s).unwrap_or_default(),
                header.major_version,
                header.minor_version,
                header.access.bits,
                header.interfaces.iter().map(s).collect::<Vec<_>>().join(" "),
                header.signature.as_ref().map(s).unwrap_or_default()
            )),
            ClassEvent::Synthetic => log.push("synthetic".to_string()),
            ClassEvent::Deprecated => log.push("deprecated".to_string()),
            ClassEvent::Source(source) => log.push(format!(
                "source {} {}",
                source.source.as_ref().map(s).unwrap_or_default(),
                source.debug.as_ref().map(s).unwrap_or_default()
            )),
            ClassEvent::Module(module) => {
                log.push(format!("module {}", s(&module.name)));
                let mut events = module.events;
                while let Some(event) = events.next() {
                    match event? {
                        ModuleEvent::MainClass(name) => log.push(format!("  main {}", s(&name))),
                        ModuleEvent::Packages(mut packages) => {
                            log.push(format!("  packages {}", names(drain(|| packages.next()))?))
                        }
                        ModuleEvent::Requires(mut requires) => {
                            log.push(format!("  requires {}", drain(|| requires.next())?.len()))
                        }
                        ModuleEvent::Exports(mut exports) => {
                            log.push(format!("  exports {}", drain(|| exports.next())?.len()))
                        }
                        ModuleEvent::Opens(mut opens) => {
                            log.push(format!("  opens {}", drain(|| opens.next())?.len()))
                        }
                        ModuleEvent::Uses(mut uses) => log.push(format!("  uses {}", names(drain(|| uses.next()))?)),
                        ModuleEvent::Provides(mut provides) => {
                            log.push(format!("  provides {}", drain(|| provides.next())?.len()))
                        }
                        _ => log.push("  other".to_string()),
                    }
                }
            }
            ClassEvent::NestHost(host) => log.push(format!("nest host {}", s(&host))),
            ClassEvent::OuterClass(outer) => log.push(format!("outer {}", s(&outer.owner))),
            ClassEvent::Annotations(mut annotations) => {
                log.push(format!("annotations {}", drain(|| annotations.next())?.len()))
            }
            ClassEvent::TypeAnnotations(mut annotations) => {
                log.push(format!("type annotations {}", drain(|| annotations.next())?.len()))
            }
            ClassEvent::Attributes(mut attributes) => {
                let found = drain(|| attributes.next())?;
                let names: Vec<String> = found.iter().map(|a| format!("{}={:?}", s(&a.name), a.data)).collect();
                log.push(format!("attributes {}", names.join(" ")))
            }
            ClassEvent::NestMembers(mut members) => {
                log.push(format!("nest members {}", names(drain(|| members.next()))?))
            }
            ClassEvent::PermittedSubclasses(mut classes) => {
                log.push(format!("permitted {}", names(drain(|| classes.next()))?))
            }
            ClassEvent::InnerClasses(mut classes) => {
                log.push(format!("inner classes {}", drain(|| classes.next())?.len()))
            }
            ClassEvent::Record(mut components) => {
                while let Some(component) = components.next() {
                    let component = component?;
                    log.push(format!(
                        "component {} {} {}",
                        s(&component.name),
                        s(&component.desc),
                        component.signature.as_ref().map(s).unwrap_or_default()
                    ));
                    let mut events = component.events;
                    while let Some(event) = events.next() {
                        match event? {
                            RecordComponentEvent::Annotations(mut annotations) => {
                                log.push(format!("  annotations {}", drain(|| annotations.next())?.len()))
                            }
                            RecordComponentEvent::TypeAnnotations(mut annotations) => {
                                log.push(format!("  type annotations {}", drain(|| annotations.next())?.len()))
                            }
                            RecordComponentEvent::Attributes(mut attributes) => {
                                log.push(format!("  attributes {}", drain(|| attributes.next())?.len()))
                            }
                            _ => log.push("  other".to_string()),
                        }
                    }
                }
            }
            ClassEvent::Fields(mut fields) => {
                while let Some(field) = fields.next() {
                    let field = field?;
                    log.push(format!(
                        "field {} {} {:#x} {:?} {}",
                        s(&field.name),
                        s(&field.desc),
                        field.access.bits,
                        field.value,
                        field.signature.as_ref().map(s).unwrap_or_default()
                    ));
                    let mut events = field.events;
                    while let Some(event) = events.next() {
                        match event? {
                            FieldEvent::Deprecated => log.push("  deprecated".to_string()),
                            FieldEvent::Annotations(mut annotations) => {
                                log.push(format!("  annotations {}", drain(|| annotations.next())?.len()))
                            }
                            FieldEvent::TypeAnnotations(mut annotations) => {
                                log.push(format!("  type annotations {}", drain(|| annotations.next())?.len()))
                            }
                            FieldEvent::Attributes(mut attributes) => {
                                log.push(format!("  attributes {}", drain(|| attributes.next())?.len()))
                            }
                            _ => log.push("  other".to_string()),
                        }
                    }
                }
            }
            ClassEvent::Methods(mut methods) => {
                while let Some(method) = methods.next() {
                    let method = method?;
                    log.push(format!(
                        "method {} {} {:#x} [{}] {}",
                        s(&method.name),
                        s(&method.desc),
                        method.access.bits,
                        method.exceptions.iter().map(s).collect::<Vec<_>>().join(" "),
                        method.signature.as_ref().map(s).unwrap_or_default()
                    ));
                    for line in method_log(method.events)? {
                        log.push(format!("  {}", line));
                    }
                }
            }
            _ => log.push("other".to_string()),
        }
    }
    Ok(log)
}

fn single_method(bytes: &[u8], flags: u8) -> ClassFileResult<Vec<String>> {
    let reader = ClassReader::new(bytes, ClassReaderFlags::from_bits_retain(flags))?;
    let mut methods = reader.events()?.methods();
    let method = methods.next().unwrap()?;
    method_log(method.events)
}

fn method_with_code(code: &[u8]) -> ClassFileResult<Vec<String>> {
    let mut class = ClassBuilder::new("T", Some("java/lang/Object"), PUBLIC_SUPER);
    class.add_code_method("run", code, &[]);
    single_method(&class.build(), 0)
}

fn type_annotation_bytes(target: &[u8], path: &[u8], desc: u16) -> Vec<u8> {
    let mut bytes = target.to_vec();
    bytes.push((path.len() / 2) as u8);
    bytes.extend_from_slice(path);
    bytes.extend(u16s(&[desc, 0]));
    bytes
}

/// A class with a method whose code has every kind of table.
fn busy_class() -> Vec<u8> {
    let mut class = ClassBuilder::new("Busy", Some("java/lang/Object"), PUBLIC_SUPER);
    class.major = 65;
    let hi = class.pool.string("hi");
    assert!(hi < 256);
    let field = class.pool.field_ref("Busy", "count", "I");
    let method = class.pool.method_ref("Busy", "help", "()V");
    let exception = class.pool.class("java/lang/Exception");
    let object = class.pool.class("java/lang/Object");
    let mut code = vec![0x03, 0x3c, 0x1b, 0x99, 0x00, 0x07, 0x84, 0x01, 0x01, 0x00];
    code.extend_from_slice(&[0x12, hi as u8, 0x57, 0xb2]);
    code.extend_from_slice(&field.to_be_bytes());
    code.extend_from_slice(&[0x57, 0xb8]);
    code.extend_from_slice(&method.to_be_bytes());
    code.extend_from_slice(&[0x10, 0x05, 0xaa, 0x00]);
    code.extend_from_slice(&22i32.to_be_bytes());
    code.extend_from_slice(&0i32.to_be_bytes());
    code.extend_from_slice(&1i32.to_be_bytes());
    code.extend_from_slice(&22i32.to_be_bytes());
    code.extend_from_slice(&23i32.to_be_bytes());
    code.extend_from_slice(&[0x00, 0xb1]);
    assert_eq!(code.len(), 46);

    let lines = class.attribute("LineNumberTable", &u16s(&[2, 0, 10, 10, 11]));
    let name = class.pool.utf8("i");
    let desc = class.pool.utf8("I");
    let signature = class.pool.utf8("TT;");
    let locals = class.attribute("LocalVariableTable", &u16s(&[1, 2, 44, name, desc, 1]));
    let local_types = class.attribute("LocalVariableTypeTable", &u16s(&[1, 2, 44, name, signature, 1]));
    let mut frames = u16s(&[4]);
    frames.extend_from_slice(&[252, 0, 2, 1]);
    frames.push(7);
    frames.extend_from_slice(&[255, 0, 33, 0, 1, 7]);
    frames.extend_from_slice(&object.to_be_bytes());
    frames.extend_from_slice(&[0, 1, 8, 0, 0]);
    frames.extend_from_slice(&[64, 0]);
    let frames = class.attribute("StackMapTable", &frames);
    let note = class.pool.utf8("LNote;");
    let mut notes = u16s(&[3]);
    let mut local_target = vec![0x40];
    local_target.extend(u16s(&[1, 2, 44, 1]));
    notes.extend(type_annotation_bytes(&local_target, &[], note));
    notes.extend(type_annotation_bytes(&[0x44, 0, 9], &[], note));
    notes.extend(type_annotation_bytes(&[0x42, 0, 0], &[], note));
    let notes = class.attribute("RuntimeVisibleTypeAnnotations", &notes);
    let extra = class.attribute("Extra", &[1, 2, 3]);
    let code = class.code(2, 3, &code, &[[0, 10, 44, exception]], &[lines, locals, local_types, frames, notes, extra]);

    let thrown = class.attribute("Exceptions", &u16s(&[1, exception]));
    let parameter = class.pool.utf8("arg");
    let mut parameters = vec![1];
    parameters.extend(u16s(&[parameter, 0x0010]));
    let parameters = class.attribute("MethodParameters", &parameters);
    let deprecated = class.attribute("Deprecated", &[]);
    let marker = Values::new().annotation(&mut class.pool, "LMarker;");
    let visible = class.attribute("RuntimeVisibleAnnotations", &annotations(&[marker.clone()]));
    let mut by_parameter = vec![1];
    by_parameter.extend(annotations(&[marker.clone()]));
    let visible_parameters = class.attribute("RuntimeVisibleParameterAnnotations", &by_parameter);
    let invisible_parameters = class.attribute("RuntimeInvisibleParameterAnnotations", &by_parameter);
    let custom = class.attribute("Custom", &[9]);
    class.add_method(
        0x0009,
        "run",
        "(I)V",
        &[deprecated, parameters, visible, visible_parameters, invisible_parameters, custom, thrown, code],
    );

    let seven = class.pool.integer(7);
    let constant_value = class.attribute("ConstantValue", &seven.to_be_bytes());
    let synthetic = class.attribute("Synthetic", &[]);
    let field_note = class.attribute("RuntimeInvisibleAnnotations", &annotations(&[marker.clone()]));
    class.add_field(0x0019, "count", "I", &[constant_value, synthetic, field_note]);

    let inner = class.pool.class("Busy$Inner");
    let simple = class.pool.utf8("Inner");
    let this_class = class.this_class;
    class.add_attribute("InnerClasses", &u16s(&[1, inner, this_class, simple, 0x0008]));
    class.add_attribute("Unknown", &[0xde, 0xad]);
    let source = class.pool.utf8("Busy.java");
    class.add_attribute("SourceFile", &source.to_be_bytes());
    class.build()
}

const BUSY_CODE: [&str; 34] = [
    "code",
    "L3",
    "line 10 L3",
    "IConst0",
    "IStore 1",
    "L4",
    "frame append [Integer]",
    "ILoad 1",
    "IfEq L0",
    "IInc 1 1",
    "Nop",
    "insn annotations +LNote;",
    "L0",
    "line 11 L0",
    "frame same",
    "Ldc string hi",
    "Pop",
    "GetStatic Busy.count I",
    "Pop",
    "InvokeStatic Busy.help ()V false",
    "BIPush 5",
    "TableSwitch 0..1 L1 [L1 L2]",
    "L1",
    "frame full [class java/lang/Object] [new at L3]",
    "Nop",
    "L2",
    "frame same1 Top",
    "Return",
    "L5",
    "locals [i I TT; L4-L5 @1]",
    "local annotations [LNote; L4-L5@1]",
    "handlers [L3-L0 L1 java/lang/Exception]",
    "handler annotations [0 LNote;]",
    "code attributes Extra=[1, 2, 3]",
];

#[test]
fn method_events_come_in_order() {
    let log = single_method(&busy_class(), 0).unwrap();
    let mut expected = vec![
        "deprecated".to_string(),
        "parameters arg:0x10".to_string(),
        "annotations +LMarker;".to_string(),
        "annotable 1 true".to_string(),
        "annotable 1 false".to_string(),
        "parameter annotations 0+LMarker; 0-LMarker;".to_string(),
        "attributes Custom=[9]".to_string(),
    ];
    expected.extend(BUSY_CODE.iter().map(|line| line.to_string()));
    expected.push("maxs 2 3".to_string());
    assert_eq!(expected, log);
}

#[test]
fn class_events_come_in_order() {
    let log = walk(&busy_class(), 0).unwrap();
    assert_eq!("class Busy java/lang/Object 65.0 0x21 [] ", log[0]);
    assert_eq!("source Busy.java ", log[1]);
    assert_eq!("attributes Unknown=[222, 173]", log[2]);
    assert_eq!("inner classes 1", log[3]);
    assert_eq!("field count I 0x1019 Some(Integer(7)) ", log[4]);
    assert_eq!("  annotations 1", log[5]);
    assert_eq!("method run (I)V 0x9 [java/lang/Exception] ", log[6]);
    assert_eq!("  deprecated", log[7]);
    assert_eq!("  maxs 2 3", log[log.len() - 1]);
}

#[test]
fn well_formed_class_yields_no_error() {
    for bytes in [busy_class(), module_info(), dynamic_class(false)] {
        for flags in 0..16u8 {
            let result = walk(&bytes, flags);
            assert!(result.is_ok(), "{:?}", result);
        }
    }
}

#[test]
fn every_truncation_yields_an_error() {
    for bytes in [busy_class(), module_info(), dynamic_class(false)] {
        for len in 0..bytes.len() {
            let result = walk(&bytes[..len], 0);
            assert!(result.is_err(), "a class cut to {} of {} bytes was read", len, bytes.len());
        }
    }
}

#[test]
fn class_cut_in_its_head_is_read_behind_its_end() {
    for bytes in [busy_class(), module_info(), dynamic_class(false)] {
        let whole = ClassReader::new(&bytes, ClassReaderFlags::from_bits_retain(0)).unwrap();
        let head = whole.metadata_start() + 8;
        assert!(head <= bytes.len());
        for len in 0..head {
            match ClassReader::new(&bytes[..len], ClassReaderFlags::from_bits_retain(0)) {
                Err(_) => {}
                Ok(cut) => {
                    assert_eq!(whole.metadata_start(), cut.metadata_start());
                    assert!(matches!(cut.events().err(), Some(ClassFileError::OutOfBounds { .. })));
                }
            }
        }
    }
}

#[test]
fn skip_code_suppresses_code_events() {
    let log = single_method(&busy_class(), ClassReaderFlags::SKIP_CODE).unwrap();
    assert_eq!(
        vec![
            "deprecated",
            "parameters arg:0x10",
            "annotations +LMarker;",
            "annotable 1 true",
            "annotable 1 false",
            "parameter annotations 0+LMarker; 0-LMarker;",
            "attributes Custom=[9]",
        ],
        log
    );
}

#[test]
fn skip_debug_suppresses_debug_events() {
    let log = single_method(&busy_class(), ClassReaderFlags::SKIP_DEBUG).unwrap();
    assert!(log.iter().all(|line| !line.starts_with("line ") && !line.starts_with("locals ")));
    assert!(!log.contains(&"parameters arg:0x10".to_string()));
    assert!(log.contains(&"frame same".to_string()));
    assert!(log.contains(&"IConst0".to_string()));
    let class_log = walk(&busy_class(), ClassReaderFlags::SKIP_DEBUG).unwrap();
    assert!(class_log.iter().all(|line| !line.starts_with("source ")));
}

#[test]
fn skip_frames_suppresses_frames() {
    let log = single_method(&busy_class(), ClassReaderFlags::SKIP_FRAMES).unwrap();
    assert!(log.iter().all(|line| !line.starts_with("frame ")));
    assert!(log.contains(&"line 10 L1".to_string()) || log.iter().any(|line| line.starts_with("line 10 ")));
    assert!(log.contains(&"Return".to_string()));
}

#[test]
fn minimal_class_yields_its_header_only() {
    let class = ClassBuilder::new("HelloWorld", Some("java/lang/Object"), PUBLIC_SUPER);
    let bytes = class.build();
    let reader = open(&bytes);
    let mut events = reader.events().unwrap();
    match events.next() {
        Some(Ok(ClassEvent::Class(header))) => assert_eq!(
            ClassClassEvent {
                major_version: 52,
                minor_version: 0,
                access: ClassAccess::from_bits_retain(ClassAccess::PUBLIC | ClassAccess::SUPER),
                name: text("HelloWorld"),
                signature: None,
                super_name: Some(text("java/lang/Object")),
                interfaces: Vec::new(),
            },
            header
        ),
        other => panic!("expected the header, got {:?}", other),
    }
    assert!(events.next().is_none());
    assert!(events.next().is_none());
}

#[test]
fn bad_magic_is_refused() {
    let mut bytes = ClassBuilder::new("T", None, 0).build();
    bytes[..4].copy_from_slice(&[0, 0, 0, 0]);
    assert_eq!(
        Some(ClassFileError::BadMagic),
        ClassReader::new(&bytes, ClassReaderFlags::empty()).err()
    );
}

#[test]
fn newer_version_is_refused() {
    let mut class = ClassBuilder::new("T", None, 0);
    class.major = LATEST_MAJOR_VERSION + 1;
    assert_eq!(
        Some(ClassFileError::UnsupportedVersion(LATEST_MAJOR_VERSION + 1)),
        ClassReader::new(&class.build(), ClassReaderFlags::empty()).err()
    );
    class.major = LATEST_MAJOR_VERSION;
    class.minor = 3;
    let bytes = class.build();
    let reader = open(&bytes);
    assert_eq!(LATEST_MAJOR_VERSION, reader.major_version());
    assert_eq!(3, reader.minor_version());
}

#[test]
fn short_file_is_out_of_bounds() {
    assert_eq!(
        Some(ClassFileError::OutOfBounds { index: 3, len: 2 }),
        ClassReader::new(&[0xca, 0xfe], ClassReaderFlags::empty()).err()
    );
}

#[test]
fn module_events_follow_the_declaration() {
    let log = walk(&module_info(), 0).unwrap();
    assert_eq!(
        vec![
            "class module-info  65.0 0x8000 [] ",
            "module test",
            "  requires 3",
            "  exports 2",
            "  opens 2",
            "  uses java/lang/Runnable",
            "  provides 1",
        ],
        log
    );
}

#[test]
fn module_main_class_and_packages_come_first() {
    let mut class = ClassBuilder::new("module-info", None, 0x8000);
    class.major = 65;
    let name = class.pool.module("m");
    class.add_attribute("Module", &u16s(&[name, 0, 0, 0, 0, 0, 0, 0]));
    let main = class.pool.class("pkg/Main");
    class.add_attribute("ModuleMainClass", &main.to_be_bytes());
    let pkg = class.pool.package("pkg");
    class.add_attribute("ModulePackages", &u16s(&[1, pkg]));
    let log = walk(&class.build(), 0).unwrap();
    assert_eq!(vec!["class module-info  65.0 0x8000 [] ", "module m", "  main pkg/Main", "  packages pkg"], log);
}

#[test]
fn annotation_values_round_trip() {
    let mut class = ClassBuilder::new("T", Some("java/lang/Object"), PUBLIC_SUPER);
    let pool = &mut class.pool;
    let mut values = Values::new();
    let three = pool.integer(3);
    values.add(pool, "i", &constant(b'I', three));
    let hi = pool.utf8("hi");
    values.add(pool, "s", &constant(b's', hi));
    let b = Values::new().annotation(pool, "LB;");
    values.add(pool, "nested", &nested(&b));
    let a = values.annotation(pool, "LA;");
    class.add_attribute("RuntimeVisibleAnnotations", &annotations(&[a]));
    let bytes = class.build();
    let reader = open(&bytes);
    let mut events = reader.events().unwrap();
    assert!(matches!(events.next(), Some(Ok(ClassEvent::Class(_)))));
    let mut found = match events.next() {
        Some(Ok(ClassEvent::Annotations(found))) => found,
        other => panic!("expected annotations, got {:?}", other),
    };
    assert_eq!(
        Some(Ok(AnnotationEvent {
            visible: true,
            annotation: AnnotationNode {
                desc: text("LA;"),
                values: vec![
                    (text("i"), AnnotationValue::Int(3)),
                    (text("s"), AnnotationValue::String(text("hi"))),
                    (
                        text("nested"),
                        AnnotationValue::Annotation(AnnotationNode { desc: text("LB;"), values: Vec::new() })
                    ),
                ],
            }
        })),
        found.next()
    );
    assert_eq!(None, found.next());
    assert!(events.next().is_none());
}

#[test]
fn table_switch_bounds_in_wrong_order() {
    let mut code = vec![0xaa, 0, 0, 0];
    code.extend_from_slice(&0i32.to_be_bytes());
    code.extend_from_slice(&5i32.to_be_bytes());
    code.extend_from_slice(&2i32.to_be_bytes());
    assert_eq!(
        Err(ClassFileError::TableSwitchBoundsWrongOrder { low: 5, high: 2 }),
        method_with_code(&code)
    );
}

/// A class whose two bootstrap methods each take a dynamic constant of the
/// other as argument where `circular`, and whose second takes one of the
/// first alone where not.
fn dynamic_class(circular: bool) -> Vec<u8> {
    let mut class = ClassBuilder::new("Dynamic", Some("java/lang/Object"), PUBLIC_SUPER);
    class.major = 65;
    let bootstrap = class.pool.method_ref("Dynamic", "bootstrap", "()Ljava/lang/Object;");
    let handle = class.pool.method_handle(6, bootstrap);
    let first = class.pool.dynamic(0, "first", "I");
    let second = class.pool.dynamic(1, "second", "I");
    let call = class.pool.invoke_dynamic(1, "call", "()V");
    let five = class.pool.integer(5);
    assert!(second < 256);
    let mut table = u16s(&[2]);
    if circular {
        table.extend(u16s(&[handle, 1, second]));
    } else {
        table.extend(u16s(&[handle, 1, five]));
    }
    table.extend(u16s(&[handle, 2, first, five]));
    class.add_attribute("BootstrapMethods", &table);
    let mut code = vec![0x12, second as u8, 0x57, 0xba];
    code.extend_from_slice(&call.to_be_bytes());
    code.extend_from_slice(&[0, 0, 0xb1]);
    class.add_code_method("run", &code, &[]);
    class.build()
}

#[test]
fn circular_constant_dynamic_is_found() {
    assert_eq!(
        Err(ClassFileError::BootstrapMethodCircularDependency),
        single_method(&dynamic_class(true), 0)
    );
}

#[test]
fn circular_constant_dynamic_fails_the_code_of_every_method() {
    let mut class = ClassBuilder::new("Dynamic", Some("java/lang/Object"), PUBLIC_SUPER);
    class.major = 65;
    let bootstrap = class.pool.method_ref("Dynamic", "bootstrap", "()Ljava/lang/Object;");
    let handle = class.pool.method_handle(6, bootstrap);
    let first = class.pool.dynamic(0, "first", "I");
    let second = class.pool.dynamic(1, "second", "I");
    assert!(second < 256 && first < 256);
    let mut table = u16s(&[2]);
    table.extend(u16s(&[handle, 1, second]));
    table.extend(u16s(&[handle, 1, first]));
    class.add_attribute("BootstrapMethods", &table);
    class.add_code_method("run", &[0x12, second as u8, 0x57, 0xb1], &[]);
    class.add_code_method("walk", &[0x12, first as u8, 0x57, 0xb1], &[]);
    class.add_code_method("rest", &[0xb1], &[]);
    let bytes = class.build();
    let reader = open(&bytes);
    let mut methods = reader.events().unwrap().methods();
    for _ in 0..2 {
        let mut events = methods.next().unwrap().unwrap().events;
        assert!(matches!(events.next(), Some(Err(ClassFileError::BootstrapMethodCircularDependency))));
        assert!(events.next().is_none());
        assert!(events.next().is_none());
    }
    let log = method_log(methods.next().unwrap().unwrap().events).unwrap();
    assert_eq!(vec!["code", "Return", "maxs 2 3"], log);
}

#[test]
fn nested_constant_dynamic_is_resolved() {
    let bytes = dynamic_class(false);
    let log = single_method(&bytes, 0).unwrap();
    assert_eq!(
        vec![
            "code",
            "Ldc dynamic second bootstrap 2",
            "Pop",
            "InvokeDynamic call ()V InvokeStatic Dynamic.bootstrap 2",
            "Return",
            "maxs 2 3"
        ],
        log
    );
    let reader = open(&bytes);
    let mut methods = reader.events().unwrap().methods();
    let mut events = methods.next().unwrap().unwrap().events;
    assert!(matches!(events.next(), Some(Ok(MethodEvent::Code { .. }))));
    match events.next() {
        Some(Ok(MethodEvent::LdcInsn(LdcConstant::ConstantDynamic(constant)))) => {
            assert_eq!(text("second"), constant.name);
            assert_eq!(HandleKind::InvokeStatic, constant.bootstrap_method.kind);
            assert!(!constant.bootstrap_method.is_interface);
            match &constant.bootstrap_method_arguments[0] {
                BootstrapMethodArgument::ConstantDynamic(inner) => {
                    assert_eq!(text("first"), inner.name);
                    assert_eq!(vec![BootstrapMethodArgument::Integer(5)], inner.bootstrap_method_arguments);
                }
                other => panic!("expected a dynamic constant, got {:?}", other),
            }
            assert_eq!(BootstrapMethodArgument::Integer(5), constant.bootstrap_method_arguments[1]);
        }
        other => panic!("expected a dynamic constant, got {:?}", other),
    }
}

#[test]
fn bootstrap_method_out_of_bounds() {
    let mut class = ClassBuilder::new("T", Some("java/lang/Object"), PUBLIC_SUPER);
    let call = class.pool.invoke_dynamic(3, "call", "()V");
    let mut code = vec![0xba];
    code.extend_from_slice(&call.to_be_bytes());
    code.extend_from_slice(&[0, 0, 0xb1]);
    class.add_code_method("run", &code, &[]);
    assert_eq!(
        Err(ClassFileError::BootstrapMethodOutOfBounds { index: 3, len: 0 }),
        single_method(&class.build(), 0)
    );
}

#[test]
fn bootstrap_argument_of_wrong_kind() {
    let mut class = ClassBuilder::new("T", Some("java/lang/Object"), PUBLIC_SUPER);
    let bootstrap = class.pool.method_ref("T", "bootstrap", "()V");
    let handle = class.pool.method_handle(6, bootstrap);
    let name = class.pool.utf8("text");
    class.add_attribute("BootstrapMethods", &u16s(&[1, handle, 1, name]));
    let call = class.pool.invoke_dynamic(0, "call", "()V");
    let mut code = vec![0xba];
    code.extend_from_slice(&call.to_be_bytes());
    code.extend_from_slice(&[0, 0, 0xb1]);
    class.add_code_method("run", &code, &[]);
    assert_eq!(
        Err(ClassFileError::BadConstantPoolTypeExpectedBootstrapMethodArgument(ConstantPoolTag::Utf8)),
        single_method(&class.build(), 0)
    );
}

#[test]
fn instructions_stand_where_they_start() {
    let mut class = ClassBuilder::new("T", Some("java/lang/Object"), PUBLIC_SUPER);
    // nop; bipush 1; sipush 2; iinc 1 1; wide iload 300; wide iinc 1 -2; lookupswitch; return
    let mut code = vec![0x00, 0x10, 0x01, 0x11, 0x00, 0x02, 0x84, 0x01, 0x01];
    code.extend_from_slice(&[0xc4, 0x15, 0x01, 0x2c]);
    code.extend_from_slice(&[0xc4, 0x84, 0x00, 0x01, 0xff, 0xfe]);
    assert_eq!(code.len(), 19);
    code.extend_from_slice(&[0xab]);
    code.extend_from_slice(&17i32.to_be_bytes());
    code.extend_from_slice(&1i32.to_be_bytes());
    code.extend_from_slice(&7i32.to_be_bytes());
    code.extend_from_slice(&17i32.to_be_bytes());
    code.push(0xb1);
    assert_eq!(code.len(), 37);
    let code_attribute = class.code(1, 1, &code, &[], &[]);
    class.add_method(1, "run", "()V", &[code_attribute]);
    let bytes = class.build();
    let reader = open(&bytes);
    let mut methods = reader.events().unwrap().methods();
    let method = methods.next().unwrap().unwrap();
    let mut data = CodeData::read(
        &reader,
        method.events.code_offset,
        &method.events.bootstrap_methods,
        method.events.method_index,
    )
    .unwrap();
    assert_eq!(0, data.labels.method());
    assert_eq!(Some(Label { method: 0, number: 0 }), data.labels.get(36));
    let mut creator = data.labels.take_creator().unwrap();
    assert!(data.labels.take_creator().is_none());
    assert_eq!(Label { method: 0, number: 1 }, creator.create_label());
    let starts: Vec<usize> = (0..data.insns.len()).filter(|&i| data.insns[i].is_some()).collect();
    assert_eq!(vec![0, 1, 3, 6, 9, 13, 19, 36], starts);
    assert_eq!(38, data.insns.len());
    let log = method_log(method.events).unwrap();
    assert_eq!(
        vec![
            "code",
            "Nop",
            "BIPush 1",
            "SIPush 2",
            "IInc 1 1",
            "ILoad 300",
            "IInc 1 -2",
            "LookupSwitch L0 [7:L0]",
            "L0",
            "Return",
            "maxs 1 1"
        ],
        log
    );
}

#[test]
fn one_label_for_each_target() {
    // a: goto c; b: goto a; c: goto a; goto b; return
    let code = [0xa7, 0, 6, 0xa7, 0xff, 0xfd, 0xa7, 0xff, 0xfa, 0xa7, 0xff, 0xfa, 0xb1];
    let log = method_with_code(&code).unwrap();
    assert_eq!(
        vec!["code", "L1", "Goto L0", "L2", "Goto L1", "L0", "Goto L1", "Goto L2", "Return", "maxs 2 3"],
        log
    );
}

#[test]
fn label_creator_goes_on_behind_the_labels_of_the_code() {
    let mut class = ClassBuilder::new("T", Some("java/lang/Object"), PUBLIC_SUPER);
    class.add_code_method("run", &[0xa7, 0, 3, 0xa7, 0xff, 0xfd], &[]);
    let bytes = class.build();
    let reader = open(&bytes);
    let mut methods = reader.events().unwrap().methods();
    let mut events = methods.next().unwrap().unwrap().events;
    match events.next() {
        Some(Ok(MethodEvent::Code { mut label_creator })) => {
            assert_eq!(Label { method: 0, number: 2 }, label_creator.create_label());
            assert_eq!(Label { method: 0, number: 3 }, label_creator.create_label());
        }
        other => panic!("expected the code, got {:?}", other),
    }
}

/// The labels of the code of a method, and those that the creator makes next.
fn labels_of(mut events: MethodReaderEvents<'_, '_>, more: usize) -> Vec<Label> {
    let mut found = Vec::new();
    let mut creator = None;
    while let Some(event) = events.next() {
        match event.unwrap() {
            MethodEvent::Code { label_creator } => creator = Some(label_creator),
            MethodEvent::Label(label) => found.push(label),
            MethodEvent::JumpInsn { label, .. } => assert!(label.method == found[0].method),
            _ => {}
        }
    }
    let mut creator = creator.unwrap();
    for _ in 0..more {
        found.push(creator.create_label());
    }
    found
}

#[test]
fn methods_of_a_class_share_no_label() {
    let mut class = ClassBuilder::new("T", Some("java/lang/Object"), PUBLIC_SUPER);
    class.add_code_method("run", &[0xa7, 0, 0, 0xa7, 0, 3, 0xb1], &[]);
    class.add_code_method("walk", &[0xa7, 0, 0, 0xa7, 0, 3, 0xb1], &[]);
    class.add_code_method("rest", &[0xa7, 0, 0, 0xb1], &[]);
    let bytes = class.build();
    let reader = open(&bytes);
    let mut methods = reader.events().unwrap().methods();
    let first = labels_of(methods.next().unwrap().unwrap().events, 5);
    let second = labels_of(methods.next().unwrap().unwrap().events, 5);
    let third = labels_of(methods.next().unwrap().unwrap().events, 5);
    assert!(methods.next().is_none());
    assert_eq!(Label { method: 0, number: 0 }, first[0]);
    assert_eq!(Label { method: 1, number: 0 }, second[0]);
    assert_eq!(Label { method: 2, number: 1 }, third[1]);
    assert_eq!(7, first.len());
    assert_eq!(6, third.len());
    let all: Vec<Label> = first.iter().chain(second.iter()).chain(third.iter()).copied().collect();
    for (i, a) in all.iter().enumerate() {
        for (j, b) in all.iter().enumerate() {
            assert_eq!(i == j, a == b, "{:?} against {:?}", a, b);
        }
    }
}

#[test]
fn short_forms_name_their_variable() {
    let log = method_with_code(&[0x1a, 0x21, 0x24, 0x29, 0x2d, 0x3b, 0x42, 0x45, 0x4a, 0x4e, 0xb1]).unwrap();
    assert_eq!(
        vec![
            "code", "ILoad 0", "LLoad 3", "FLoad 2", "DLoad 3", "ALoad 3", "IStore 0", "LStore 3", "FStore 2",
            "DStore 3", "AStore 3", "Return", "maxs 2 3"
        ],
        log
    );
}

#[test]
fn wide_jumps_and_constants() {
    let mut class = ClassBuilder::new("T", Some("java/lang/Object"), PUBLIC_SUPER);
    let long = class.pool.long(9);
    let number = class.pool.integer(-7);
    let mut code = vec![0x14];
    code.extend_from_slice(&long.to_be_bytes());
    code.push(0x13);
    code.extend_from_slice(&number.to_be_bytes());
    code.push(0xc8);
    code.extend_from_slice(&5i32.to_be_bytes());
    code.push(0xc9);
    code.extend_from_slice(&(-5i32).to_be_bytes());
    code.push(0xb1);
    class.add_code_method("run", &code, &[]);
    let log = single_method(&class.build(), 0).unwrap();
    assert_eq!(
        vec![
            "code",
            "Ldc Long(9)",
            "Ldc Integer(-7)",
            "L1",
            "Goto L0",
            "L0",
            "Jsr L1",
            "Return",
            "maxs 2 3"
        ],
        log
    );
}

#[test]
fn calls_and_types() {
    let mut class = ClassBuilder::new("T", Some("java/lang/Object"), PUBLIC_SUPER);
    let run = class.pool.interface_method_ref("java/lang/Runnable", "run", "()V");
    let hash = class.pool.method_ref("java/lang/Object", "hashCode", "()I");
    let object = class.pool.class("java/lang/Object");
    let grid = class.pool.class("[[I");
    let mut code = vec![0xb9];
    code.extend_from_slice(&run.to_be_bytes());
    code.extend_from_slice(&[1, 0, 0xb6]);
    code.extend_from_slice(&hash.to_be_bytes());
    code.push(0xb8);
    code.extend_from_slice(&run.to_be_bytes());
    code.push(0xbb);
    code.extend_from_slice(&object.to_be_bytes());
    code.push(0xc0);
    code.extend_from_slice(&object.to_be_bytes());
    code.extend_from_slice(&[0xbc, 10, 0xc5]);
    code.extend_from_slice(&grid.to_be_bytes());
    code.extend_from_slice(&[2, 0xb1]);
    class.add_code_method("run", &code, &[]);
    let log = single_method(&class.build(), 0).unwrap();
    assert_eq!(
        vec![
            "code",
            "InvokeInterface java/lang/Runnable.run ()V true",
            "InvokeVirtual java/lang/Object.hashCode ()I false",
            "InvokeStatic java/lang/Runnable.run ()V true",
            "New java/lang/Object",
            "CheckCast java/lang/Object",
            "NewArray Int",
            "MultiANewArray [[I 2",
            "Return",
            "maxs 2 3"
        ],
        log
    );
}

#[test]
fn jump_out_of_the_code() {
    assert_eq!(
        Err(ClassFileError::CodeOffsetOutOfBounds { index: 5, len: 4 }),
        method_with_code(&[0xa7, 0, 5])
    );
    assert_eq!(
        Err(ClassFileError::CodeOffsetOutOfBounds { index: usize::MAX, len: 4 }),
        method_with_code(&[0xa7, 0xff, 0xff])
    );
    assert_eq!(
        Err(ClassFileError::CodeOffsetOutOfBounds { index: 2, len: 2 }),
        method_with_code(&[0xa7, 0])
    );
}

#[test]
fn bad_instructions() {
    assert_eq!(Err(ClassFileError::BadOpcode(0xca)), method_with_code(&[0xca]));
    assert_eq!(Err(ClassFileError::BadOpcode(0xc4)), method_with_code(&[0xc4, 0xc4, 0, 0]));
    assert_eq!(Err(ClassFileError::BadWideOpcode(Opcode::Nop)), method_with_code(&[0xc4, 0x00, 0, 0]));
    assert_eq!(Err(ClassFileError::BadNewArrayType(3)), method_with_code(&[0xbc, 3]));
    let mut class = ClassBuilder::new("T", Some("java/lang/Object"), PUBLIC_SUPER);
    let name = class.pool.utf8("text");
    class.add_code_method("run", &[0x12, name as u8], &[]);
    assert_eq!(
        Err(ClassFileError::BadConstantPoolTypeExpectedLdcOperand(ConstantPoolTag::Utf8)),
        single_method(&class.build(), 0)
    );
}

#[test]
fn bad_code_sizes() {
    let mut class = ClassBuilder::new("T", Some("java/lang/Object"), PUBLIC_SUPER);
    class.add_code_method("run", &[], &[]);
    assert_eq!(Err(ClassFileError::BadCodeSize(0)), single_method(&class.build(), 0));
    let mut class = ClassBuilder::new("T", Some("java/lang/Object"), PUBLIC_SUPER);
    class.add_code_method("run", &vec![0u8; 65536], &[]);
    assert_eq!(Err(ClassFileError::BadCodeSize(65536)), single_method(&class.build(), 0));
    let mut class = ClassBuilder::new("T", Some("java/lang/Object"), PUBLIC_SUPER);
    let mut code = vec![0u8; 65534];
    code.push(0xb1);
    class.add_code_method("run", &code, &[]);
    let log = single_method(&class.build(), 0).unwrap();
    assert_eq!(65535 + 2, log.len());
}

fn method_with_frames(frames: &[u8]) -> ClassFileResult<Vec<String>> {
    let mut class = ClassBuilder::new("T", Some("java/lang/Object"), PUBLIC_SUPER);
    let frames = class.attribute("StackMapTable", frames);
    class.add_code_method("run", &[0, 0, 0, 0, 0xb1], &[frames]);
    single_method(&class.build(), 0)
}

#[test]
fn frames_lie_their_distance_behind_one_another() {
    let log = method_with_frames(&[0, 3, 1, 250, 0, 1, 251, 0, 0]).unwrap();
    assert_eq!(
        vec![
            "code",
            "Nop",
            "frame same",
            "Nop",
            "Nop",
            "frame chop 1",
            "Nop",
            "frame same",
            "Return",
            "maxs 2 3"
        ],
        log
    );
}

#[test]
fn old_frames_are_full_frames() {
    let mut class = ClassBuilder::new("T", Some("java/lang/Object"), PUBLIC_SUPER);
    let frames = class.attribute("StackMap", &[0, 1, 0, 2, 0, 2, 4, 3, 0, 1, 5]);
    class.add_code_method("run", &[0, 0, 0xb1], &[frames]);
    let log = single_method(&class.build(), 0).unwrap();
    assert_eq!(vec!["code", "Nop", "Nop", "frame full [Long, Double] [Null]", "Return", "maxs 2 3"], log);
}

#[test]
fn bad_frames() {
    assert_eq!(Err(ClassFileError::BadFrameType(128)), method_with_frames(&[0, 1, 128]));
    assert_eq!(Err(ClassFileError::BadFrameType(246)), method_with_frames(&[0, 1, 246]));
    assert_eq!(Err(ClassFileError::BadFrameValueTag(9)), method_with_frames(&[0, 1, 64, 9]));
    assert_eq!(
        Err(ClassFileError::CodeOffsetOutOfBounds { index: 6, len: 6 }),
        method_with_frames(&[0, 1, 6])
    );
    assert_eq!(
        Err(ClassFileError::CodeOffsetOutOfBounds { index: 7, len: 6 }),
        method_with_frames(&[0, 2, 3, 3])
    );
}

#[test]
fn bad_annotations() {
    let mut class = ClassBuilder::new("T", Some("java/lang/Object"), PUBLIC_SUPER);
    let pool = &mut class.pool;
    let mut values = Values::new();
    values.add(pool, "v", &[b'x', 0, 0]);
    let a = values.annotation(pool, "LA;");
    class.add_attribute("RuntimeVisibleAnnotations", &annotations(&[a]));
    assert_eq!(Err(ClassFileError::BadAnnotationTag(b'x')), walk(&class.build(), 0));

    let mut class = ClassBuilder::new("T", Some("java/lang/Object"), PUBLIC_SUPER);
    let desc = class.pool.utf8("LA;");
    class.add_attribute(
        "RuntimeVisibleTypeAnnotations",
        &annotations(&[type_annotation_bytes(&[0x18], &[], desc)]),
    );
    assert_eq!(Err(ClassFileError::BadTypeAnnotationTarget(0x18)), walk(&class.build(), 0));
}

fn nested_arrays(depth: usize) -> ClassFileResult<Vec<String>> {
    let mut class = ClassBuilder::new("T", Some("java/lang/Object"), PUBLIC_SUPER);
    let pool = &mut class.pool;
    let one = pool.integer(1);
    let mut value = constant(b'I', one);
    for _ in 0..depth {
        value = array(&[value]);
    }
    let mut values = Values::new();
    values.add(pool, "v", &value);
    let a = values.annotation(pool, "LA;");
    class.add_attribute("RuntimeVisibleAnnotations", &annotations(&[a]));
    walk(&class.build(), 0)
}

#[test]
fn annotations_nest_to_a_limit() {
    assert!(nested_arrays(MAX_ANNOTATION_NESTING as usize).is_ok());
    assert_eq!(
        Err(ClassFileError::TooDeepAnnotationNesting),
        nested_arrays(MAX_ANNOTATION_NESTING as usize + 1)
    );
}

#[test]
fn field_constant_of_wrong_kind() {
    let mut class = ClassBuilder::new("T", Some("java/lang/Object"), PUBLIC_SUPER);
    let name = class.pool.class("T");
    let value = class.attribute("ConstantValue", &name.to_be_bytes());
    class.add_field(0, "f", "I", &[value]);
    assert_eq!(
        Err(ClassFileError::BadConstantPoolTypeExpectedFieldConstantValue(ConstantPoolTag::Class)),
        walk(&class.build(), 0)
    );
}

#[test]
fn field_and_record_annotations_show_with_one_list() {
    let mut class = ClassBuilder::new("T", Some("java/lang/Record"), PUBLIC_SUPER);
    class.major = 65;
    let marker = Values::new().annotation(&mut class.pool, "LMarker;");
    let visible = class.attribute("RuntimeVisibleAnnotations", &annotations(&[marker.clone()]));
    let desc = class.pool.utf8("LNote;");
    let types = class.attribute(
        "RuntimeInvisibleTypeAnnotations",
        &annotations(&[type_annotation_bytes(&[0x13], &[0, 0], desc)]),
    );
    let deprecated = class.attribute("Deprecated", &[]);
    let odd = class.attribute("Odd", &[]);
    class.add_field(2, "x", "[I", &[deprecated, visible.clone(), types.clone(), odd.clone()]);
    let signature = class.pool.utf8("TT;");
    let signature = class.attribute("Signature", &signature.to_be_bytes());
    let component = class.member(0, "x", "[I", &[signature, visible, types, odd]);
    let mut record = u16s(&[1]);
    record.extend_from_slice(&component[2..]);
    class.add_attribute("Record", &record);
    let log = walk(&class.build(), 0).unwrap();
    assert_eq!(
        vec![
            "class T java/lang/Record 65.0 0x21 [] ",
            "component x [I TT;",
            "  annotations 1",
            "  type annotations 1",
            "  attributes 1",
            "field x [I 0x2 None ",
            "  deprecated",
            "  annotations 1",
            "  type annotations 1",
            "  attributes 1",
        ],
        log
    );
}

#[test]
fn source_debug_extension_is_decoded() {
    let mut class = ClassBuilder::new("T", Some("java/lang/Object"), PUBLIC_SUPER);
    class.add_attribute("SourceDebugExtension", &[b'S', b'M', 0xc0, 0x80, b'!']);
    let bytes = class.build();
    let reader = open(&bytes);
    let source = reader.events().unwrap().source().unwrap().unwrap();
    assert_eq!(None, source.source);
    assert_eq!(Some(JavaText { bytes: vec![b'S', b'M', 0, b'!'] }), source.debug);
}

#[test]
fn unknown_attribute_keeps_its_payload() {
    let mut class = ClassBuilder::new("T", Some("java/lang/Object"), PUBLIC_SUPER);
    class.add_attribute("First", &[1, 2, 3, 4, 5, 6, 7]);
    class.add_attribute("Second", &[]);
    let bytes = class.build();
    let reader = open(&bytes);
    let mut attributes = reader.events().unwrap().attributes();
    assert_eq!(2, attributes.len());
    assert_eq!(
        Some(Ok(UnknownAttribute { name: text("First"), data: vec![1, 2, 3, 4, 5, 6, 7] })),
        attributes.next()
    );
    assert_eq!(Some(Ok(UnknownAttribute { name: text("Second"), data: vec![] })), attributes.next());
    assert_eq!(None, attributes.next());
}

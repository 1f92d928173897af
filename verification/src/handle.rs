//! Method handles and the constants that bootstrap methods compute.

use crate::error::{ClassFileError, ClassFileResult};
use crate::text::JavaText;
use vstd::prelude::*;

verus! {

/// What a method handle does with the member it refers to.
#[derive(Debug, Copy, Clone, PartialEq, Eq, Structural, PartialOrd, Ord, Hash)]
#[non_exhaustive]
pub enum HandleKind {
    GetField,
    GetStatic,
    PutField,
    PutStatic,
    InvokeVirtual,
    InvokeStatic,
    InvokeSpecial,
    NewInvokeSpecial,
    InvokeInterface,
}

/// The handle kind that a reference kind byte stands for.
pub open spec fn spec_handle_kind(tag: u8) -> Option<HandleKind> {
    if tag == 1 {
        Some(HandleKind::GetField)
    } else if tag == 2 {
        Some(HandleKind::GetStatic)
    } else if tag == 3 {
        Some(HandleKind::PutField)
    } else if tag == 4 {
        Some(HandleKind::PutStatic)
    } else if tag == 5 {
        Some(HandleKind::InvokeVirtual)
    } else if tag == 6 {
        Some(HandleKind::InvokeStatic)
    } else if tag == 7 {
        Some(HandleKind::InvokeSpecial)
    } else if tag == 8 {
        Some(HandleKind::NewInvokeSpecial)
    } else if tag == 9 {
        Some(HandleKind::InvokeInterface)
    } else {
        None
    }
}

impl HandleKind {
    /// The reference kind byte of this kind.
    pub open spec fn spec_number(self) -> u8 {
        match self {
            HandleKind::GetField => 1,
            HandleKind::GetStatic => 2,
            HandleKind::PutField => 3,
            HandleKind::PutStatic => 4,
            HandleKind::InvokeVirtual => 5,
            HandleKind::InvokeStatic => 6,
            HandleKind::InvokeSpecial => 7,
            HandleKind::NewInvokeSpecial => 8,
            HandleKind::InvokeInterface => 9,
        }
    }

    pub fn from_u8(tag: u8) -> (r: ClassFileResult<HandleKind>)
        ensures
            r == match spec_handle_kind(tag) {
                Some(kind) => Ok::<HandleKind, ClassFileError>(kind),
                None => Err(ClassFileError::BadHandleKind(tag)),
            },
            r is Ok ==> r->Ok_0.spec_number() == tag,
    {
        match tag {
            1 => Ok(HandleKind::GetField),
            2 => Ok(HandleKind::GetStatic),
            3 => Ok(HandleKind::PutField),
            4 => Ok(HandleKind::PutStatic),
            5 => Ok(HandleKind::InvokeVirtual),
            6 => Ok(HandleKind::InvokeStatic),
            7 => Ok(HandleKind::InvokeSpecial),
            8 => Ok(HandleKind::NewInvokeSpecial),
            9 => Ok(HandleKind::InvokeInterface),
            _ => Err(ClassFileError::BadHandleKind(tag)),
        }
    }

    /// The reference kind byte of this kind.
    #[verifier::when_used_as_spec(spec_number)]
    pub fn number(self) -> (r: u8)
        ensures
            r == self.spec_number(),
            spec_handle_kind(r) == Some(self),
    {
        match self {
            HandleKind::GetField => 1,
            HandleKind::GetStatic => 2,
            HandleKind::PutField => 3,
            HandleKind::PutStatic => 4,
            HandleKind::InvokeVirtual => 5,
            HandleKind::InvokeStatic => 6,
            HandleKind::InvokeSpecial => 7,
            HandleKind::NewInvokeSpecial => 8,
            HandleKind::InvokeInterface => 9,
        }
    }
}

/// A method handle, with the member it refers to resolved.
#[derive(Debug, PartialEq, Eq, PartialOrd, Ord, Hash)]
pub struct Handle {
    pub kind: HandleKind,
    pub owner: JavaText,
    pub name: JavaText,
    pub desc: JavaText,
    /// Whether the member was given by an interface method reference.
    pub is_interface: bool,
}

pub struct HandleView {
    pub kind: HandleKind,
    pub owner: Seq<u8>,
    pub name: Seq<u8>,
    pub desc: Seq<u8>,
    pub is_interface: bool,
}

impl DeepView for Handle {
    type V = HandleView;

    open spec fn deep_view(&self) -> HandleView {
        HandleView {
            kind: self.kind,
            owner: self.owner@,
            name: self.name@,
            desc: self.desc@,
            is_interface: self.is_interface,
        }
    }
}

impl Clone for Handle {
    fn clone(&self) -> (r: Self)
        ensures
            r.deep_view() == self.deep_view(),
    {
        Handle {
            kind: self.kind,
            owner: self.owner.clone(),
            name: self.name.clone(),
            desc: self.desc.clone(),
            is_interface: self.is_interface,
        }
    }
}

/// A dynamically computed constant: its name and descriptor, and the
/// bootstrap method that computes it, with that method's arguments.
#[derive(Debug, PartialEq, Eq, PartialOrd, Ord, Hash)]
pub struct ConstantDynamic {
    pub name: JavaText,
    pub desc: JavaText,
    pub bootstrap_method: Handle,
    pub bootstrap_method_arguments: Vec<BootstrapMethodArgument>,
}

/// A static argument of a bootstrap method. `Float` and `Double` hold the
/// bits of the IEEE-754 value.
#[derive(Debug, PartialEq, Eq, PartialOrd, Ord, Hash)]
pub enum BootstrapMethodArgument {
    Integer(i32),
    Float(u32),
    Long(i64),
    Double(u64),
    String(JavaText),
    Class(JavaText),
    Handle(Handle),
    ConstantDynamic(ConstantDynamic),
}

pub struct ConstantDynamicView {
    pub name: Seq<u8>,
    pub desc: Seq<u8>,
    pub bootstrap_method: HandleView,
    pub bootstrap_method_arguments: Seq<BootstrapMethodArgumentView>,
}

pub enum BootstrapMethodArgumentView {
    Integer(i32),
    Float(u32),
    Long(i64),
    Double(u64),
    String(Seq<u8>),
    Class(Seq<u8>),
    Handle(HandleView),
    ConstantDynamic(ConstantDynamicView),
}

impl DeepView for ConstantDynamic {
    type V = ConstantDynamicView;

    open spec fn deep_view(&self) -> ConstantDynamicView
        decreases self,
    {
        ConstantDynamicView {
            name: self.name@,
            desc: self.desc@,
            bootstrap_method: self.bootstrap_method.deep_view(),
            bootstrap_method_arguments: Seq::new(
                self.bootstrap_method_arguments@.len(),
                |i: int|
                    if 0 <= i < self.bootstrap_method_arguments@.len() {
                        self.bootstrap_method_arguments@[i].deep_view()
                    } else {
                        arbitrary()
                    },
            ),
        }
    }
}

impl DeepView for BootstrapMethodArgument {
    type V = BootstrapMethodArgumentView;

    open spec fn deep_view(&self) -> BootstrapMethodArgumentView
        decreases self,
    {
        match self {
            BootstrapMethodArgument::Integer(v) => BootstrapMethodArgumentView::Integer(*v),
            BootstrapMethodArgument::Float(v) => BootstrapMethodArgumentView::Float(*v),
            BootstrapMethodArgument::Long(v) => BootstrapMethodArgumentView::Long(*v),
            BootstrapMethodArgument::Double(v) => BootstrapMethodArgumentView::Double(*v),
            BootstrapMethodArgument::String(v) => BootstrapMethodArgumentView::String(v@),
            BootstrapMethodArgument::Class(v) => BootstrapMethodArgumentView::Class(v@),
            BootstrapMethodArgument::Handle(v) => BootstrapMethodArgumentView::Handle(v.deep_view()),
            BootstrapMethodArgument::ConstantDynamic(v) => BootstrapMethodArgumentView::ConstantDynamic(
                v.deep_view(),
            ),
        }
    }
}

/// The deep view of a list of arguments.
pub open spec fn arguments_view(arguments: Seq<BootstrapMethodArgument>) -> Seq<BootstrapMethodArgumentView> {
    Seq::new(arguments.len(), |i: int| arguments[i].deep_view())
}

/// The view of a constant holds the views of its arguments.
pub proof fn lemma_constant_dynamic_view(constant: ConstantDynamic)
    ensures
        constant.deep_view().bootstrap_method_arguments == arguments_view(
            constant.bootstrap_method_arguments@,
        ),
{
    assert(constant.deep_view().bootstrap_method_arguments =~= arguments_view(
        constant.bootstrap_method_arguments@,
    ));
}

/// A copy of a list of arguments.
pub fn clone_arguments(arguments: &Vec<BootstrapMethodArgument>) -> (r: Vec<BootstrapMethodArgument>)
    ensures
        arguments_view(r@) == arguments_view(arguments@),
    decreases arguments, 1int,
{
    let mut copy: Vec<BootstrapMethodArgument> = Vec::new();
    let mut i: usize = 0;
    while i < arguments.len()
        invariant
            i <= arguments@.len(),
            copy@.len() == i,
            forall|k: int| 0 <= k < i ==> copy@[k].deep_view() == arguments@[k].deep_view(),
        decreases arguments@.len() - i,
    {
        let argument = clone_argument(&arguments[i]);
        copy.push(argument);
        i = i + 1;
    }
    assert(arguments_view(copy@) =~= arguments_view(arguments@));
    copy
}

/// A copy of one argument.
pub fn clone_argument(argument: &BootstrapMethodArgument) -> (r: BootstrapMethodArgument)
    ensures
        r.deep_view() == argument.deep_view(),
    decreases argument, 0int,
{
    match argument {
        BootstrapMethodArgument::Integer(v) => BootstrapMethodArgument::Integer(*v),
        BootstrapMethodArgument::Float(v) => BootstrapMethodArgument::Float(*v),
        BootstrapMethodArgument::Long(v) => BootstrapMethodArgument::Long(*v),
        BootstrapMethodArgument::Double(v) => BootstrapMethodArgument::Double(*v),
        BootstrapMethodArgument::String(v) => BootstrapMethodArgument::String(v.clone()),
        BootstrapMethodArgument::Class(v) => BootstrapMethodArgument::Class(v.clone()),
        BootstrapMethodArgument::Handle(v) => BootstrapMethodArgument::Handle(v.clone()),
        BootstrapMethodArgument::ConstantDynamic(v) => {
            let arguments = clone_arguments(&v.bootstrap_method_arguments);
            let copy = ConstantDynamic {
                name: v.name.clone(),
                desc: v.desc.clone(),
                bootstrap_method: v.bootstrap_method.clone(),
                bootstrap_method_arguments: arguments,
            };
            proof {
                lemma_constant_dynamic_view(copy);
                lemma_constant_dynamic_view(*v);
            }
            BootstrapMethodArgument::ConstantDynamic(copy)
        },
    }
}

impl Clone for BootstrapMethodArgument {
    fn clone(&self) -> (r: Self)
        ensures
            r.deep_view() == self.deep_view(),
    {
        clone_argument(self)
    }
}

impl Clone for ConstantDynamic {
    fn clone(&self) -> (r: Self)
        ensures
            r.deep_view() == self.deep_view(),
    {
        let copy = ConstantDynamic {
            name: self.name.clone(),
            desc: self.desc.clone(),
            bootstrap_method: self.bootstrap_method.clone(),
            bootstrap_method_arguments: clone_arguments(&self.bootstrap_method_arguments),
        };
        proof {
            lemma_constant_dynamic_view(copy);
            lemma_constant_dynamic_view(*self);
        }
        copy
    }
}

} // verus!

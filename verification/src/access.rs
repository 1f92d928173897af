//! Sets of flags, each held as the bits that the class file gives.

use vstd::prelude::*;

verus! {

/// The access flags of a class.
#[derive(Debug, Copy, Clone, PartialEq, Eq, Structural, PartialOrd, Ord, Hash, Default)]
pub struct ClassAccess {
    pub bits: u16,
}

impl DeepView for ClassAccess {
    type V = ClassAccess;

    open spec fn deep_view(&self) -> ClassAccess {
        *self
    }
}

impl ClassAccess {
    pub const PUBLIC: u16 = 0x0001;

    pub const FINAL: u16 = 0x0010;

    pub const SUPER: u16 = 0x0020;

    pub const INTERFACE: u16 = 0x0200;

    pub const ABSTRACT: u16 = 0x0400;

    pub const SYNTHETIC: u16 = 0x1000;

    pub const ANNOTATION: u16 = 0x2000;

    pub const ENUM: u16 = 0x4000;

    pub const MODULE: u16 = 0x8000;

    /// Whether every flag of `flags` is set.
    pub open spec fn spec_contains(self, flags: u16) -> bool {
        self.bits & flags == flags
    }

    /// The set with exactly the bits `bits`, known flags or not.
    pub fn from_bits_retain(bits: u16) -> (r: Self)
        ensures
            r.bits == bits,
    {
        ClassAccess { bits }
    }

    /// The set without a flag.
    pub fn empty() -> (r: Self)
        ensures
            r.bits == 0,
    {
        ClassAccess { bits: 0 }
    }

    pub fn bits(self) -> (r: u16)
        ensures
            r == self.bits,
    {
        self.bits
    }

    /// Whether every flag of `flags` is set.
    #[verifier::when_used_as_spec(spec_contains)]
    pub fn contains(self, flags: u16) -> (r: bool)
        ensures
            r == self.spec_contains(flags),
    {
        self.bits & flags == flags
    }
}

/// The access flags of a field.
#[derive(Debug, Copy, Clone, PartialEq, Eq, Structural, PartialOrd, Ord, Hash, Default)]
pub struct FieldAccess {
    pub bits: u16,
}

impl DeepView for FieldAccess {
    type V = FieldAccess;

    open spec fn deep_view(&self) -> FieldAccess {
        *self
    }
}

impl FieldAccess {
    pub const PUBLIC: u16 = 0x0001;

    pub const PRIVATE: u16 = 0x0002;

    pub const PROTECTED: u16 = 0x0004;

    pub const STATIC: u16 = 0x0008;

    pub const FINAL: u16 = 0x0010;

    pub const VOLATILE: u16 = 0x0040;

    pub const TRANSIENT: u16 = 0x0080;

    pub const SYNTHETIC: u16 = 0x1000;

    pub const ENUM: u16 = 0x4000;

    /// Whether every flag of `flags` is set.
    pub open spec fn spec_contains(self, flags: u16) -> bool {
        self.bits & flags == flags
    }

    /// The set with exactly the bits `bits`, known flags or not.
    pub fn from_bits_retain(bits: u16) -> (r: Self)
        ensures
            r.bits == bits,
    {
        FieldAccess { bits }
    }

    /// The set without a flag.
    pub fn empty() -> (r: Self)
        ensures
            r.bits == 0,
    {
        FieldAccess { bits: 0 }
    }

    pub fn bits(self) -> (r: u16)
        ensures
            r == self.bits,
    {
        self.bits
    }

    /// Whether every flag of `flags` is set.
    #[verifier::when_used_as_spec(spec_contains)]
    pub fn contains(self, flags: u16) -> (r: bool)
        ensures
            r == self.spec_contains(flags),
    {
        self.bits & flags == flags
    }

    /// Sets the flags of `flags`.
    pub fn insert(&mut self, flags: u16)
        ensures
            final(self).bits == old(self).bits | flags,
    {
        self.bits = self.bits | flags;
    }
}

/// The access flags of a method.
#[derive(Debug, Copy, Clone, PartialEq, Eq, Structural, PartialOrd, Ord, Hash, Default)]
pub struct MethodAccess {
    pub bits: u16,
}

impl DeepView for MethodAccess {
    type V = MethodAccess;

    open spec fn deep_view(&self) -> MethodAccess {
        *self
    }
}

impl MethodAccess {
    pub const PUBLIC: u16 = 0x0001;

    pub const PRIVATE: u16 = 0x0002;

    pub const PROTECTED: u16 = 0x0004;

    pub const STATIC: u16 = 0x0008;

    pub const FINAL: u16 = 0x0010;

    pub const SYNCHRONIZED: u16 = 0x0020;

    pub const BRIDGE: u16 = 0x0040;

    pub const VARARGS: u16 = 0x0080;

    pub const NATIVE: u16 = 0x0100;

    pub const ABSTRACT: u16 = 0x0400;

    pub const STRICT: u16 = 0x0800;

    pub const SYNTHETIC: u16 = 0x1000;

    /// Whether every flag of `flags` is set.
    pub open spec fn spec_contains(self, flags: u16) -> bool {
        self.bits & flags == flags
    }

    /// The set with exactly the bits `bits`, known flags or not.
    pub fn from_bits_retain(bits: u16) -> (r: Self)
        ensures
            r.bits == bits,
    {
        MethodAccess { bits }
    }

    /// The set without a flag.
    pub fn empty() -> (r: Self)
        ensures
            r.bits == 0,
    {
        MethodAccess { bits: 0 }
    }

    pub fn bits(self) -> (r: u16)
        ensures
            r == self.bits,
    {
        self.bits
    }

    /// Whether every flag of `flags` is set.
    #[verifier::when_used_as_spec(spec_contains)]
    pub fn contains(self, flags: u16) -> (r: bool)
        ensures
            r == self.spec_contains(flags),
    {
        self.bits & flags == flags
    }

    /// Sets the flags of `flags`.
    pub fn insert(&mut self, flags: u16)
        ensures
            final(self).bits == old(self).bits | flags,
    {
        self.bits = self.bits | flags;
    }
}

/// The access flags of an inner class, as its source declared them.
#[derive(Debug, Copy, Clone, PartialEq, Eq, Structural, PartialOrd, Ord, Hash, Default)]
pub struct InnerClassAccess {
    pub bits: u16,
}

impl DeepView for InnerClassAccess {
    type V = InnerClassAccess;

    open spec fn deep_view(&self) -> InnerClassAccess {
        *self
    }
}

impl InnerClassAccess {
    pub const PUBLIC: u16 = 0x0001;

    pub const PRIVATE: u16 = 0x0002;

    pub const PROTECTED: u16 = 0x0004;

    pub const STATIC: u16 = 0x0008;

    pub const FINAL: u16 = 0x0010;

    pub const INTERFACE: u16 = 0x0200;

    pub const ABSTRACT: u16 = 0x0400;

    pub const SYNTHETIC: u16 = 0x1000;

    pub const ANNOTATION: u16 = 0x2000;

    pub const ENUM: u16 = 0x4000;

    /// Whether every flag of `flags` is set.
    pub open spec fn spec_contains(self, flags: u16) -> bool {
        self.bits & flags == flags
    }

    /// The set with exactly the bits `bits`, known flags or not.
    pub fn from_bits_retain(bits: u16) -> (r: Self)
        ensures
            r.bits == bits,
    {
        InnerClassAccess { bits }
    }

    /// The set without a flag.
    pub fn empty() -> (r: Self)
        ensures
            r.bits == 0,
    {
        InnerClassAccess { bits: 0 }
    }

    pub fn bits(self) -> (r: u16)
        ensures
            r == self.bits,
    {
        self.bits
    }

    /// Whether every flag of `flags` is set.
    #[verifier::when_used_as_spec(spec_contains)]
    pub fn contains(self, flags: u16) -> (r: bool)
        ensures
            r == self.spec_contains(flags),
    {
        self.bits & flags == flags
    }
}

/// The flags of a module.
#[derive(Debug, Copy, Clone, PartialEq, Eq, Structural, PartialOrd, Ord, Hash, Default)]
pub struct ModuleAccess {
    pub bits: u16,
}

impl DeepView for ModuleAccess {
    type V = ModuleAccess;

    open spec fn deep_view(&self) -> ModuleAccess {
        *self
    }
}

impl ModuleAccess {
    pub const OPEN: u16 = 0x0020;

    pub const SYNTHETIC: u16 = 0x1000;

    pub const MANDATED: u16 = 0x8000;

    /// Whether every flag of `flags` is set.
    pub open spec fn spec_contains(self, flags: u16) -> bool {
        self.bits & flags == flags
    }

    /// The set with exactly the bits `bits`, known flags or not.
    pub fn from_bits_retain(bits: u16) -> (r: Self)
        ensures
            r.bits == bits,
    {
        ModuleAccess { bits }
    }

    /// The set without a flag.
    pub fn empty() -> (r: Self)
        ensures
            r.bits == 0,
    {
        ModuleAccess { bits: 0 }
    }

    pub fn bits(self) -> (r: u16)
        ensures
            r == self.bits,
    {
        self.bits
    }

    /// Whether every flag of `flags` is set.
    #[verifier::when_used_as_spec(spec_contains)]
    pub fn contains(self, flags: u16) -> (r: bool)
        ensures
            r == self.spec_contains(flags),
    {
        self.bits & flags == flags
    }
}

/// The flags of a dependence of a module.
#[derive(Debug, Copy, Clone, PartialEq, Eq, Structural, PartialOrd, Ord, Hash, Default)]
pub struct ModuleRequireAccess {
    pub bits: u16,
}

impl DeepView for ModuleRequireAccess {
    type V = ModuleRequireAccess;

    open spec fn deep_view(&self) -> ModuleRequireAccess {
        *self
    }
}

impl ModuleRequireAccess {
    pub const TRANSITIVE: u16 = 0x0020;

    pub const STATIC_PHASE: u16 = 0x0040;

    pub const SYNTHETIC: u16 = 0x1000;

    pub const MANDATED: u16 = 0x8000;

    /// Whether every flag of `flags` is set.
    pub open spec fn spec_contains(self, flags: u16) -> bool {
        self.bits & flags == flags
    }

    /// The set with exactly the bits `bits`, known flags or not.
    pub fn from_bits_retain(bits: u16) -> (r: Self)
        ensures
            r.bits == bits,
    {
        ModuleRequireAccess { bits }
    }

    /// The set without a flag.
    pub fn empty() -> (r: Self)
        ensures
            r.bits == 0,
    {
        ModuleRequireAccess { bits: 0 }
    }

    pub fn bits(self) -> (r: u16)
        ensures
            r == self.bits,
    {
        self.bits
    }

    /// Whether every flag of `flags` is set.
    #[verifier::when_used_as_spec(spec_contains)]
    pub fn contains(self, flags: u16) -> (r: bool)
        ensures
            r == self.spec_contains(flags),
    {
        self.bits & flags == flags
    }
}

/// The flags of an export or an opening of a module.
#[derive(Debug, Copy, Clone, PartialEq, Eq, Structural, PartialOrd, Ord, Hash, Default)]
pub struct ModuleRelationAccess {
    pub bits: u16,
}

impl DeepView for ModuleRelationAccess {
    type V = ModuleRelationAccess;

    open spec fn deep_view(&self) -> ModuleRelationAccess {
        *self
    }
}

impl ModuleRelationAccess {
    pub const SYNTHETIC: u16 = 0x1000;

    pub const MANDATED: u16 = 0x8000;

    /// Whether every flag of `flags` is set.
    pub open spec fn spec_contains(self, flags: u16) -> bool {
        self.bits & flags == flags
    }

    /// The set with exactly the bits `bits`, known flags or not.
    pub fn from_bits_retain(bits: u16) -> (r: Self)
        ensures
            r.bits == bits,
    {
        ModuleRelationAccess { bits }
    }

    /// The set without a flag.
    pub fn empty() -> (r: Self)
        ensures
            r.bits == 0,
    {
        ModuleRelationAccess { bits: 0 }
    }

    pub fn bits(self) -> (r: u16)
        ensures
            r == self.bits,
    {
        self.bits
    }

    /// Whether every flag of `flags` is set.
    #[verifier::when_used_as_spec(spec_contains)]
    pub fn contains(self, flags: u16) -> (r: bool)
        ensures
            r == self.spec_contains(flags),
    {
        self.bits & flags == flags
    }
}

/// The flags of a formal parameter.
#[derive(Debug, Copy, Clone, PartialEq, Eq, Structural, PartialOrd, Ord, Hash, Default)]
pub struct ParameterAccess {
    pub bits: u16,
}

impl DeepView for ParameterAccess {
    type V = ParameterAccess;

    open spec fn deep_view(&self) -> ParameterAccess {
        *self
    }
}

impl ParameterAccess {
    pub const FINAL: u16 = 0x0010;

    pub const SYNTHETIC: u16 = 0x1000;

    pub const MANDATED: u16 = 0x8000;

    /// Whether every flag of `flags` is set.
    pub open spec fn spec_contains(self, flags: u16) -> bool {
        self.bits & flags == flags
    }

    /// The set with exactly the bits `bits`, known flags or not.
    pub fn from_bits_retain(bits: u16) -> (r: Self)
        ensures
            r.bits == bits,
    {
        ParameterAccess { bits }
    }

    /// The set without a flag.
    pub fn empty() -> (r: Self)
        ensures
            r.bits == 0,
    {
        ParameterAccess { bits: 0 }
    }

    pub fn bits(self) -> (r: u16)
        ensures
            r == self.bits,
    {
        self.bits
    }

    /// Whether every flag of `flags` is set.
    #[verifier::when_used_as_spec(spec_contains)]
    pub fn contains(self, flags: u16) -> (r: bool)
        ensures
            r == self.spec_contains(flags),
    {
        self.bits & flags == flags
    }
}

/// What a reader leaves out.
#[derive(Debug, Copy, Clone, PartialEq, Eq, Structural, PartialOrd, Ord, Hash, Default)]
pub struct ClassReaderFlags {
    pub bits: u8,
}

impl DeepView for ClassReaderFlags {
    type V = ClassReaderFlags;

    open spec fn deep_view(&self) -> ClassReaderFlags {
        *self
    }
}

impl ClassReaderFlags {
    pub const NONE: u8 = 0;

    /// Do not decode the code of methods.
    pub const SKIP_CODE: u8 = 1;

    /// Leave out source names, line numbers, local variables and parameter names.
    pub const SKIP_DEBUG: u8 = 2;

    /// Leave out stack map frames.
    pub const SKIP_FRAMES: u8 = 4;

    /// Ask for frames in their full form.
    pub const EXPAND_FRAMES: u8 = 8;

    /// Whether every flag of `flags` is set.
    pub open spec fn spec_contains(self, flags: u8) -> bool {
        self.bits & flags == flags
    }

    /// The set with exactly the bits `bits`, known flags or not.
    pub fn from_bits_retain(bits: u8) -> (r: Self)
        ensures
            r.bits == bits,
    {
        ClassReaderFlags { bits }
    }

    /// The set without a flag.
    pub fn empty() -> (r: Self)
        ensures
            r.bits == 0,
    {
        ClassReaderFlags { bits: 0 }
    }

    pub fn bits(self) -> (r: u8)
        ensures
            r == self.bits,
    {
        self.bits
    }

    /// Whether every flag of `flags` is set.
    #[verifier::when_used_as_spec(spec_contains)]
    pub fn contains(self, flags: u8) -> (r: bool)
        ensures
            r == self.spec_contains(flags),
    {
        self.bits & flags == flags
    }
}

} // verus!

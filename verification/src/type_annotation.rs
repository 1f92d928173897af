//! What a type annotation is attached to: the reference to a type in a
//! declaration or in code, and the path from that type to the part of it
//! that is meant.

use std::cmp::Ordering;
use std::num::ParseIntError;
use vstd::prelude::*;
use vstd::std_specs::cmp::PartialEqSpecImpl;
use vstd::string::*;

verus! {

/// The use of a type that a type annotation is attached to.
#[derive(Debug, Copy, Clone, PartialEq, Eq, PartialOrd, Ord, Hash)]
#[non_exhaustive]
pub enum TypeReference {
    ClassTypeParameter { param_index: u8 },
    MethodTypeParameter { param_index: u8 },
    /// The superclass where `interface_index` is `None`, else the interface
    /// with that index.
    ClassExtends { interface_index: Option<u16> },
    ClassTypeParameterBound { param_index: u8, bound_index: u8 },
    MethodTypeParameterBound { param_index: u8, bound_index: u8 },
    Field,
    MethodReturn,
    MethodReceiver,
    MethodFormalParameter { param_index: u8 },
    Throws { exception_index: u16 },
    LocalVariable,
    ResourceVariable,
    ExceptionParameter,
    Instanceof,
    New,
    ConstructorReference,
    MethodReference,
    Cast { arg_index: u8 },
    ConstructorInvocationTypeArgument { arg_index: u8 },
    MethodInvocationTypeArgument { arg_index: u8 },
    ConstructorReferenceTypeArgument { arg_index: u8 },
    MethodReferenceTypeArgument { arg_index: u8 },
}

impl DeepView for TypeReference {
    type V = TypeReference;

    open spec fn deep_view(&self) -> TypeReference {
        *self
    }
}

impl TypeReference {
    /// The target type byte of this kind of reference.
    pub open spec fn spec_target_type(self) -> u8 {
        match self {
            TypeReference::ClassTypeParameter { .. } => 0x00,
            TypeReference::MethodTypeParameter { .. } => 0x01,
            TypeReference::ClassExtends { .. } => 0x10,
            TypeReference::ClassTypeParameterBound { .. } => 0x11,
            TypeReference::MethodTypeParameterBound { .. } => 0x12,
            TypeReference::Field => 0x13,
            TypeReference::MethodReturn => 0x14,
            TypeReference::MethodReceiver => 0x15,
            TypeReference::MethodFormalParameter { .. } => 0x16,
            TypeReference::Throws { .. } => 0x17,
            TypeReference::LocalVariable => 0x40,
            TypeReference::ResourceVariable => 0x41,
            TypeReference::ExceptionParameter => 0x42,
            TypeReference::Instanceof => 0x43,
            TypeReference::New => 0x44,
            TypeReference::ConstructorReference => 0x45,
            TypeReference::MethodReference => 0x46,
            TypeReference::Cast { .. } => 0x47,
            TypeReference::ConstructorInvocationTypeArgument { .. } => 0x48,
            TypeReference::MethodInvocationTypeArgument { .. } => 0x49,
            TypeReference::ConstructorReferenceTypeArgument { .. } => 0x4A,
            TypeReference::MethodReferenceTypeArgument { .. } => 0x4B,
        }
    }

    /// The target type byte of this kind of reference.
    #[verifier::when_used_as_spec(spec_target_type)]
    pub fn target_type(self) -> (r: u8)
        ensures
            r == self.spec_target_type(),
    {
        match self {
            TypeReference::ClassTypeParameter { .. } => 0x00,
            TypeReference::MethodTypeParameter { .. } => 0x01,
            TypeReference::ClassExtends { .. } => 0x10,
            TypeReference::ClassTypeParameterBound { .. } => 0x11,
            TypeReference::MethodTypeParameterBound { .. } => 0x12,
            TypeReference::Field => 0x13,
            TypeReference::MethodReturn => 0x14,
            TypeReference::MethodReceiver => 0x15,
            TypeReference::MethodFormalParameter { .. } => 0x16,
            TypeReference::Throws { .. } => 0x17,
            TypeReference::LocalVariable => 0x40,
            TypeReference::ResourceVariable => 0x41,
            TypeReference::ExceptionParameter => 0x42,
            TypeReference::Instanceof => 0x43,
            TypeReference::New => 0x44,
            TypeReference::ConstructorReference => 0x45,
            TypeReference::MethodReference => 0x46,
            TypeReference::Cast { .. } => 0x47,
            TypeReference::ConstructorInvocationTypeArgument { .. } => 0x48,
            TypeReference::MethodInvocationTypeArgument { .. } => 0x49,
            TypeReference::ConstructorReferenceTypeArgument { .. } => 0x4A,
            TypeReference::MethodReferenceTypeArgument { .. } => 0x4B,
        }
    }
}

/// One step of a type path.
#[derive(Debug, Copy, Clone, PartialEq, Eq, Structural, PartialOrd, Ord, Hash)]
pub enum TypePathElement {
    /// Into the element type of an array type.
    ArrayElement,
    /// Into a nested type.
    InnerType,
    /// Into the bound of a wildcard.
    WildcardBound,
    /// Into the type argument with this index.
    TypeArgument(u8),
}

/// The kind byte of a step that is none of the four kinds.
#[derive(Debug, Copy, Clone, PartialEq, Eq, Structural, PartialOrd, Ord, Hash)]
pub struct TypePathError {
    pub invalid_kind: u8,
}

/// A step as a path holds it: a step proper, or a kind byte that names none.
pub type TypePathStep = Result<TypePathElement, TypePathError>;

/// The step that a kind byte and the byte after it stand for. The second
/// byte counts for a type argument only.
pub open spec fn spec_step(kind: u8, argument: u8) -> TypePathStep {
    if kind == 0 {
        Ok(TypePathElement::ArrayElement)
    } else if kind == 1 {
        Ok(TypePathElement::InnerType)
    } else if kind == 2 {
        Ok(TypePathElement::WildcardBound)
    } else if kind == 3 {
        Ok(TypePathElement::TypeArgument(argument))
    } else {
        Err(TypePathError { invalid_kind: kind })
    }
}

/// The steps that a sequence of byte pairs stands for.
pub open spec fn spec_steps(bytes: Seq<u8>) -> Seq<TypePathStep> {
    Seq::new((bytes.len() / 2) as nat, |i: int| spec_step(bytes[2 * i], bytes[2 * i + 1]))
}

/// The two bytes of a step.
pub open spec fn spec_step_bytes(step: TypePathElement) -> (u8, u8) {
    match step {
        TypePathElement::ArrayElement => (0, 0),
        TypePathElement::InnerType => (1, 0),
        TypePathElement::WildcardBound => (2, 0),
        TypePathElement::TypeArgument(argument_index) => (3, argument_index),
    }
}

/// Whether the second byte of every pair that is no type argument is zero, so
/// that equal paths have equal bytes.
pub open spec fn normal(bytes: Seq<u8>) -> bool {
    &&& bytes.len() % 2 == 0
    &&& forall|i: int| 0 <= i < bytes.len() / 2 && bytes[2 * i] != 3 ==> #[trigger] bytes[2 * i + 1] == 0
}

/// The path from a type to one of its parts: a sequence of steps.
#[derive(Debug, PartialOrd, Ord, Hash)]
pub struct TypePath {
    path: Vec<u8>,
}

impl View for TypePath {
    type V = Seq<TypePathStep>;

    closed spec fn view(&self) -> Seq<TypePathStep> {
        spec_steps(self.path@)
    }
}

impl DeepView for TypePath {
    type V = Seq<TypePathStep>;

    open spec fn deep_view(&self) -> Seq<TypePathStep> {
        self@
    }
}

impl TypePath {
    #[verifier::type_invariant]
    spec fn inv(self) -> bool {
        normal(self.path@)
    }

    /// The empty path.
    pub fn new() -> (r: Self)
        ensures
            r@ == Seq::<TypePathStep>::empty(),
    {
        let path = TypePath { path: Vec::new() };
        assert(path@ =~= Seq::<TypePathStep>::empty());
        path
    }

    /// The path that `bytes` hold as pairs of a kind byte and an argument byte.
    pub fn from_bytes(bytes: &[u8]) -> (r: Self)
        requires
            bytes@.len() % 2 == 0,
        ensures
            r@ == spec_steps(bytes@),
    {
        let mut path: Vec<u8> = Vec::new();
        let mut i: usize = 0;
        while i < bytes.len()
            invariant
                bytes@.len() % 2 == 0,
                i % 2 == 0,
                i <= bytes@.len(),
                path@.len() == i,
                normal(path@),
                forall|k: int| 0 <= k < i / 2 ==> #[trigger] spec_step(path@[2 * k], path@[2 * k + 1]) == spec_step(
                    bytes@[2 * k],
                    bytes@[2 * k + 1],
                ),
            decreases bytes@.len() - i,
        {
            let kind: u8 = bytes[i];
            let argument: u8 = if kind == 3 {
                bytes[i + 1]
            } else {
                0
            };
            let ghost before = path@;
            path.push(kind);
            path.push(argument);
            proof {
                let after = path@;
                assert forall|k: int| 0 <= k < after.len() / 2 && after[2 * k] != 3 implies #[trigger] after[2
                    * k + 1] == 0 by {
                    if k < i / 2 {
                        assert(after[2 * k + 1] == before[2 * k + 1]);
                    }
                }
                assert forall|k: int| 0 <= k < (i + 2) / 2 implies #[trigger] spec_step(
                    after[2 * k],
                    after[2 * k + 1],
                ) == spec_step(bytes@[2 * k], bytes@[2 * k + 1]) by {
                    if k < i / 2 {
                        assert(after[2 * k] == before[2 * k]);
                        assert(after[2 * k + 1] == before[2 * k + 1]);
                    }
                }
            }
            i = i + 2;
        }
        let result = TypePath { path };
        assert(result@ =~= spec_steps(bytes@));
        result
    }

    /// The number of steps.
    pub fn len(&self) -> (n: usize)
        ensures
            n == self@.len(),
    {
        self.path.len() / 2
    }

    pub fn is_empty(&self) -> (r: bool)
        ensures
            r == (self@.len() == 0),
    {
        proof {
            use_type_invariant(self);
        }
        self.path.len() == 0
    }

    /// The step with index `index`, or nothing behind the last step.
    pub fn try_get(&self, index: usize) -> (r: Result<Option<TypePathElement>, TypePathError>)
        ensures
            index >= self@.len() ==> r == Ok::<Option<TypePathElement>, TypePathError>(None),
            index < self@.len() ==> r == match self@[index as int] {
                Ok(step) => Ok::<Option<TypePathElement>, TypePathError>(Some(step)),
                Err(e) => Err(e),
            },
    {
        proof {
            use_type_invariant(self);
        }
        if index >= self.path.len() / 2 {
            return Ok(None);
        }
        let kind: u8 = self.path[index * 2];
        match kind {
            0 => Ok(Some(TypePathElement::ArrayElement)),
            1 => Ok(Some(TypePathElement::InnerType)),
            2 => Ok(Some(TypePathElement::WildcardBound)),
            3 => Ok(Some(TypePathElement::TypeArgument(self.path[index * 2 + 1]))),
            _ => Err(TypePathError { invalid_kind: kind }),
        }
    }

    /// The step with index `index`.
    pub fn get(&self, index: usize) -> (r: TypePathStep)
        requires
            index < self@.len(),
        ensures
            r == self@[index as int],
    {
        match self.try_get(index) {
            Ok(Some(step)) => Ok(step),
            Ok(None) => Ok(TypePathElement::ArrayElement),
            Err(e) => Err(e),
        }
    }

    /// Puts `value` in the place of the step with index `index`.
    pub fn set(&mut self, index: usize, value: TypePathElement)
        requires
            index < old(self)@.len(),
        ensures
            final(self)@ == old(self)@.update(index as int, Ok::<TypePathElement, TypePathError>(value)),
    {
        proof {
            use_type_invariant(&*self);
        }
        let (kind, argument) = match value {
            TypePathElement::ArrayElement => (0u8, 0u8),
            TypePathElement::InnerType => (1u8, 0u8),
            TypePathElement::WildcardBound => (2u8, 0u8),
            TypePathElement::TypeArgument(argument_index) => (3u8, argument_index),
        };
        let ghost before = self.path@;
        let total: usize = self.path.len();
        assert(index < total / 2);
        let mut path: Vec<u8> = Vec::new();
        std::mem::swap(&mut path, &mut self.path);
        path.set(index * 2, kind);
        path.set(index * 2 + 1, argument);
        proof {
            let after = path@;
            assert forall|k: int| 0 <= k < after.len() / 2 && after[2 * k] != 3 implies #[trigger] after[2
                * k + 1] == 0 by {
                if k != index {
                    assert(after[2 * k + 1] == before[2 * k + 1]);
                }
            }
            assert(spec_steps(after) =~= spec_steps(before).update(
                index as int,
                Ok::<TypePathElement, TypePathError>(value),
            )) by {
                assert forall|k: int| 0 <= k < after.len() / 2 implies spec_steps(after)[k] == spec_steps(
                    before,
                ).update(index as int, Ok::<TypePathElement, TypePathError>(value))[k] by {
                    if k != index {
                        assert(after[2 * k] == before[2 * k]);
                        assert(after[2 * k + 1] == before[2 * k + 1]);
                    }
                }
            }
        }
        self.path = path;
    }

    /// Adds `value` behind the last step.
    pub fn push(&mut self, value: TypePathElement)
        ensures
            final(self)@ == old(self)@.push(Ok::<TypePathElement, TypePathError>(value)),
    {
        proof {
            use_type_invariant(&*self);
        }
        let (kind, argument) = match value {
            TypePathElement::ArrayElement => (0u8, 0u8),
            TypePathElement::InnerType => (1u8, 0u8),
            TypePathElement::WildcardBound => (2u8, 0u8),
            TypePathElement::TypeArgument(argument_index) => (3u8, argument_index),
        };
        let ghost before = self.path@;
        let mut path: Vec<u8> = Vec::new();
        std::mem::swap(&mut path, &mut self.path);
        path.push(kind);
        path.push(argument);
        proof {
            let after = path@;
            assert forall|k: int| 0 <= k < after.len() / 2 && after[2 * k] != 3 implies #[trigger] after[2
                * k + 1] == 0 by {
                if k < before.len() / 2 {
                    assert(after[2 * k + 1] == before[2 * k + 1]);
                }
            }
            assert(spec_steps(after) =~= spec_steps(before).push(
                Ok::<TypePathElement, TypePathError>(value),
            )) by {
                assert forall|k: int| 0 <= k < after.len() / 2 implies spec_steps(after)[k] == spec_steps(
                    before,
                ).push(Ok::<TypePathElement, TypePathError>(value))[k] by {
                    if k < before.len() / 2 {
                        assert(after[2 * k] == before[2 * k]);
                        assert(after[2 * k + 1] == before[2 * k + 1]);
                    }
                }
            }
        }
        self.path = path;
    }

    /// The steps of the path, first step first.
    pub fn iter(&self) -> (r: TypePathIterator<'_>)
        ensures
            r.path == self,
            r.index == 0,
    {
        TypePathIterator { path: self, index: 0 }
    }
}

impl Clone for TypePath {
    fn clone(&self) -> (r: Self)
        ensures
            r@ == self@,
    {
        proof {
            use_type_invariant(self);
        }
        TypePath { path: self.path.clone() }
    }
}

impl Default for TypePath {
    /// The empty path.
    fn default() -> (r: Self)
        ensures
            r@ == Seq::<TypePathStep>::empty(),
    {
        TypePath::new()
    }
}

impl PartialEq for TypePath {
    /// Whether the two paths have the same steps.
    fn eq(&self, other: &Self) -> (r: bool) {
        proof {
            use_type_invariant(self);
            use_type_invariant(other);
        }
        if self.path.len() != other.path.len() {
            assert(self@.len() != other@.len());
            return false;
        }
        let mut i: usize = 0;
        while i < self.path.len()
            invariant
                self.path@.len() == other.path@.len(),
                self.path@.len() % 2 == 0,
                i % 2 == 0,
                i <= self.path@.len(),
                forall|k: int| 0 <= k < i / 2 ==> #[trigger] self@[k] == other@[k],
            decreases self.path@.len() - i,
        {
            if self.path[i] != other.path[i] {
                assert(self@[(i / 2) as int] != other@[(i / 2) as int]);
                return false;
            }
            if self.path[i] == 3 && self.path[i + 1] != other.path[i + 1] {
                assert(self@[(i / 2) as int] != other@[(i / 2) as int]);
                return false;
            }
            assert(self@[(i / 2) as int] == other@[(i / 2) as int]);
            i = i + 2;
        }
        assert(self@ =~= other@);
        true
    }
}

impl PartialEqSpecImpl for TypePath {
    open spec fn obeys_eq_spec() -> bool {
        true
    }

    open spec fn eq_spec(&self, other: &TypePath) -> bool {
        self@ == other@
    }
}

impl Eq for TypePath {

}

/// Walks the steps of a path.
#[derive(Debug)]
pub struct TypePathIterator<'path> {
    pub path: &'path TypePath,
    pub index: usize,
}

impl<'path> TypePathIterator<'path> {
    /// The next step, or nothing behind the last one.
    pub fn next(&mut self) -> (r: Option<TypePathStep>)
        ensures
            final(self).path == old(self).path,
            old(self).index < old(self).path@.len() ==> r == Some(old(self).path@[old(self).index as int])
                && final(self).index == old(self).index + 1,
            old(self).index >= old(self).path@.len() ==> r is None && final(self).index == old(self).index,
    {
        if self.index >= self.path.len() {
            return None;
        }
        let index: usize = self.index;
        self.index = index + 1;
        Some(self.path.get(index))
    }

    /// The number of steps that are still to come.
    pub fn remaining(&self) -> (n: usize)
        ensures
            n == (if self.index < self.path@.len() {
                self.path@.len() - self.index
            } else {
                0
            }),
    {
        let total: usize = self.path.len();
        if self.index < total {
            total - self.index
        } else {
            0
        }
    }
}

/// The place of a step in the order of steps: its kind, and for a type
/// argument its index.
pub open spec fn step_key(step: TypePathStep) -> (int, int) {
    match step {
        Ok(TypePathElement::ArrayElement) => (0, 0),
        Ok(TypePathElement::InnerType) => (1, 0),
        Ok(TypePathElement::WildcardBound) => (2, 0),
        Ok(TypePathElement::TypeArgument(argument_index)) => (3, argument_index as int),
        Err(e) => (e.invalid_kind as int, 0),
    }
}

/// How two steps compare: -1 where the first comes first, 1 where the second
/// does, 0 where neither does.
pub open spec fn step_order(a: TypePathStep, b: TypePathStep) -> int {
    let x = step_key(a);
    let y = step_key(b);
    if x.0 < y.0 || (x.0 == y.0 && x.1 < y.1) {
        -1
    } else if x == y {
        0
    } else {
        1
    }
}

/// How two paths compare from step `i` on: by the first step in which they
/// differ, and where one ends before they differ, the shorter comes first.
pub open spec fn path_order_from(a: Seq<TypePathStep>, b: Seq<TypePathStep>, i: int) -> int
    decreases a.len() - i,
{
    if i >= a.len() || i >= b.len() || i < 0 {
        if a.len() < b.len() {
            -1
        } else if a.len() == b.len() {
            0
        } else {
            1
        }
    } else if step_order(a[i], b[i]) != 0 {
        step_order(a[i], b[i])
    } else {
        path_order_from(a, b, i + 1)
    }
}

/// How two paths compare.
pub open spec fn path_order(a: Seq<TypePathStep>, b: Seq<TypePathStep>) -> int {
    path_order_from(a, b, 0)
}

/// The number that an order stands for.
pub open spec fn order_number(order: Ordering) -> int {
    match order {
        Ordering::Less => -1,
        Ordering::Equal => 0,
        Ordering::Greater => 1,
    }
}

impl TypePath {
    /// How this path compares to `other`: step by step, and a path comes
    /// before every longer path that starts with it.
    pub fn cmp(&self, other: &Self) -> (r: Ordering)
        ensures
            order_number(r) == path_order(self@, other@),
    {
        proof {
            use_type_invariant(self);
            use_type_invariant(other);
        }
        let mine: usize = self.path.len();
        let theirs: usize = other.path.len();
        let mut i: usize = 0;
        while i < mine && i < theirs
            invariant
                mine == self.path@.len(),
                theirs == other.path@.len(),
                mine % 2 == 0,
                theirs % 2 == 0,
                i % 2 == 0,
                path_order(self@, other@) == path_order_from(self@, other@, i / 2 + 0),
            decreases mine - i,
        {
            let ghost k = i / 2 + 0;
            assert(self@[k] == spec_step(self.path@[2 * k], self.path@[2 * k + 1]));
            assert(other@[k] == spec_step(other.path@[2 * k], other.path@[2 * k + 1]));
            if self.path[i] < other.path[i] {
                return Ordering::Less;
            }
            if self.path[i] > other.path[i] {
                return Ordering::Greater;
            }
            if self.path[i] == 3 {
                if self.path[i + 1] < other.path[i + 1] {
                    return Ordering::Less;
                }
                if self.path[i + 1] > other.path[i + 1] {
                    return Ordering::Greater;
                }
            }
            i = i + 2;
        }
        if mine < theirs {
            Ordering::Less
        } else if mine == theirs {
            Ordering::Equal
        } else {
            Ordering::Greater
        }
    }
}

/// The error of the standard library's parsing of integers, carried through
/// unchanged.
#[verifier::external_type_specification]
#[verifier::external_body]
pub struct ExParseIntError(ParseIntError);

/// The copy of an error of parsing an integer; nothing is claimed of it.
pub assume_specification[ <ParseIntError as Clone>::clone ](e: &ParseIntError) -> ParseIntError
;

/// What is wrong with the text of a type path.
#[derive(Debug, Clone, PartialEq, Eq)]
pub enum ParseTypePathErrorKind {
    /// A character that has no place where it stands.
    UnexpectedChar(char),
    /// The index of a type argument is no number of eight bits.
    IntParseError(ParseIntError),
    /// The index of a type argument is not followed by `;`.
    ExpectedNumberTerminator,
}

/// The error of parsing the text of a type path: where in the text, and
/// what.
#[derive(Debug, Clone, PartialEq, Eq)]
pub struct ParseTypePathError {
    pub index: usize,
    pub kind: ParseTypePathErrorKind,
}

/// Whether a character is a decimal digit.
pub open spec fn spec_is_digit(ch: char) -> bool {
    '0' <= ch <= '9'
}

/// The number that decimal digits stand for.
pub open spec fn spec_decimal(digits: Seq<char>) -> nat
    decreases digits.len(),
{
    if digits.len() == 0 {
        0
    } else {
        (spec_decimal(digits.drop_last()) * 10 + (digits.last() as u32 - '0' as u32)) as nat
    }
}

/// What parsing the text of a type path gives.
pub enum ParsedTypePath {
    /// The path that the text stands for.
    Path(Seq<TypePathStep>),
    /// The character at `index` has no place there.
    UnexpectedChar { index: int, ch: char },
    /// The number that starts at `index` is larger than 255.
    NumberTooLarge { index: int },
    /// The number that ends at `index` is not followed by `;`.
    ExpectedNumberTerminator { index: int },
}

/// What parsing `text` from the character with index `i` on gives, behind
/// the steps found so far, where a number has started at `number_start`.
/// `[` stands for an array element, `.` for an inner type, `*` for the bound
/// of a wildcard, and a decimal number followed by `;` for the type argument
/// with that index.
pub open spec fn spec_parse_from(
    text: Seq<char>,
    i: int,
    number_start: Option<int>,
    steps: Seq<TypePathStep>,
) -> ParsedTypePath
    decreases text.len() - i,
{
    if i >= text.len() || i < 0 {
        if number_start is Some {
            ParsedTypePath::ExpectedNumberTerminator { index: text.len() as int }
        } else {
            ParsedTypePath::Path(steps)
        }
    } else {
        let ch = text[i];
        if ch == '[' || ch == '.' || ch == '*' {
            if number_start is Some {
                ParsedTypePath::ExpectedNumberTerminator { index: i }
            } else {
                spec_parse_from(
                    text,
                    i + 1,
                    None,
                    steps.push(
                        Ok(
                            if ch == '[' {
                                TypePathElement::ArrayElement
                            } else if ch == '.' {
                                TypePathElement::InnerType
                            } else {
                                TypePathElement::WildcardBound
                            },
                        ),
                    ),
                )
            }
        } else if spec_is_digit(ch) {
            spec_parse_from(
                text,
                i + 1,
                if number_start is Some {
                    number_start
                } else {
                    Some(i)
                },
                steps,
            )
        } else if ch == ';' {
            match number_start {
                None => ParsedTypePath::UnexpectedChar { index: i, ch },
                Some(start) => if spec_decimal(text.subrange(start, i)) > 255 {
                    ParsedTypePath::NumberTooLarge { index: start }
                } else {
                    spec_parse_from(
                        text,
                        i + 1,
                        None,
                        steps.push(Ok(TypePathElement::TypeArgument(spec_decimal(text.subrange(start, i)) as u8))),
                    )
                },
            }
        } else {
            ParsedTypePath::UnexpectedChar { index: i, ch }
        }
    }
}

/// What parsing `text` gives.
pub open spec fn spec_parse(text: Seq<char>) -> ParsedTypePath {
    spec_parse_from(text, 0, None, Seq::empty())
}

/// Calls `str::parse::<u8>` of the standard library, which reads a decimal
/// number: on digits alone it gives their number where that is at most 255,
/// and else an error.
#[verifier::external_body]
fn parse_index(digits: &str) -> (r: Result<u8, ParseIntError>)
    requires
        digits@.len() > 0,
        forall|i: int| 0 <= i < digits@.len() ==> spec_is_digit(#[trigger] digits@[i]),
    ensures
        r is Ok <==> spec_decimal(digits@) <= 255,
        r is Ok ==> r->Ok_0 == spec_decimal(digits@),
{
    digits.parse::<u8>()
}

impl TypePath {
    /// Parses the text of a type path, as `to_string` writes it.
    pub fn parse(s: &str) -> (r: Result<TypePath, ParseTypePathError>)
        ensures
            match spec_parse(s@) {
                ParsedTypePath::Path(steps) => r is Ok && r->Ok_0@ == steps,
                ParsedTypePath::UnexpectedChar { index, ch } => r is Err && r->Err_0.index == index
                    && r->Err_0.kind == ParseTypePathErrorKind::UnexpectedChar(ch),
                ParsedTypePath::NumberTooLarge { index } => r is Err && r->Err_0.index == index
                    && r->Err_0.kind is IntParseError,
                ParsedTypePath::ExpectedNumberTerminator { index } => r is Err && r->Err_0.index == index
                    && r->Err_0.kind == ParseTypePathErrorKind::ExpectedNumberTerminator,
            },
    {
        let mut path = TypePath::new();
        let mut number_start: Option<usize> = None;
        let len: usize = s.unicode_len();
        let mut i: usize = 0;
        while i < len
            invariant
                len == s@.len(),
                i <= len,
                number_start is Some ==> number_start->Some_0 < i && forall|k: int|
                    number_start->Some_0 <= k < i ==> spec_is_digit(#[trigger] s@[k]),
                spec_parse(s@) == spec_parse_from(
                    s@,
                    i as int,
                    match number_start {
                        Some(start) => Some(start as int),
                        None => None,
                    },
                    path@,
                ),
            decreases len - i,
        {
            let ch: char = s.get_char(i);
            if ch == '[' || ch == '.' || ch == '*' {
                if number_start.is_some() {
                    return Err(
                        ParseTypePathError { index: i, kind: ParseTypePathErrorKind::ExpectedNumberTerminator },
                    );
                }
                path.push(
                    if ch == '[' {
                        TypePathElement::ArrayElement
                    } else if ch == '.' {
                        TypePathElement::InnerType
                    } else {
                        TypePathElement::WildcardBound
                    },
                );
            } else if '0' <= ch && ch <= '9' {
                if number_start.is_none() {
                    number_start = Some(i);
                }
            } else if ch == ';' {
                match number_start {
                    None => {
                        return Err(
                            ParseTypePathError { index: i, kind: ParseTypePathErrorKind::UnexpectedChar(ch) },
                        );
                    },
                    Some(start) => {
                        let digits = s.substring_char(start, i);
                        match parse_index(digits) {
                            Ok(argument_index) => {
                                path.push(TypePathElement::TypeArgument(argument_index));
                            },
                            Err(err) => {
                                return Err(
                                    ParseTypePathError {
                                        index: start,
                                        kind: ParseTypePathErrorKind::IntParseError(err),
                                    },
                                );
                            },
                        }
                        number_start = None;
                    },
                }
            } else {
                return Err(ParseTypePathError { index: i, kind: ParseTypePathErrorKind::UnexpectedChar(ch) });
            }
            i = i + 1;
        }
        if number_start.is_some() {
            return Err(
                ParseTypePathError { index: len, kind: ParseTypePathErrorKind::ExpectedNumberTerminator },
            );
        }
        Ok(path)
    }
}

/// The character of a decimal digit.
pub open spec fn spec_digit_char(digit: u8) -> char {
    if digit == 0 {
        '0'
    } else if digit == 1 {
        '1'
    } else if digit == 2 {
        '2'
    } else if digit == 3 {
        '3'
    } else if digit == 4 {
        '4'
    } else if digit == 5 {
        '5'
    } else if digit == 6 {
        '6'
    } else if digit == 7 {
        '7'
    } else if digit == 8 {
        '8'
    } else {
        '9'
    }
}

/// The decimal digits of a number of eight bits, without leading zeros.
pub open spec fn spec_digits(n: u8) -> Seq<char> {
    if n < 10 {
        seq![spec_digit_char(n)]
    } else if n < 100 {
        seq![spec_digit_char(n / 10), spec_digit_char(n % 10)]
    } else {
        seq![spec_digit_char(n / 100), spec_digit_char(n / 10 % 10), spec_digit_char(n % 10)]
    }
}

/// The text of a step: `[` for an array element, `.` for an inner type, `*`
/// for the bound of a wildcard, the index and `;` for a type argument, and
/// `?` for a step of no kind.
pub open spec fn spec_step_text(step: TypePathStep) -> Seq<char> {
    match step {
        Ok(TypePathElement::ArrayElement) => seq!['['],
        Ok(TypePathElement::InnerType) => seq!['.'],
        Ok(TypePathElement::WildcardBound) => seq!['*'],
        Ok(TypePathElement::TypeArgument(argument_index)) => spec_digits(argument_index).push(';'),
        Err(_) => seq!['?'],
    }
}

/// The text of the first `count` steps of a path.
pub open spec fn spec_path_text(steps: Seq<TypePathStep>, count: int) -> Seq<char>
    decreases count,
{
    if count <= 0 {
        Seq::empty()
    } else {
        spec_path_text(steps, count - 1) + spec_step_text(steps[count - 1])
    }
}

/// The text of a decimal digit.
fn digit_text(digit: u8) -> (r: &'static str)
    requires
        digit < 10,
    ensures
        r@ == seq![spec_digit_char(digit)],
{
    proof {
        reveal_strlit("0");
        reveal_strlit("1");
        reveal_strlit("2");
        reveal_strlit("3");
        reveal_strlit("4");
        reveal_strlit("5");
        reveal_strlit("6");
        reveal_strlit("7");
        reveal_strlit("8");
        reveal_strlit("9");
    }
    let text = match digit {
        0 => "0",
        1 => "1",
        2 => "2",
        3 => "3",
        4 => "4",
        5 => "5",
        6 => "6",
        7 => "7",
        8 => "8",
        _ => "9",
    };
    assert(text@ =~= seq![spec_digit_char(digit)]);
    text
}

impl TypePathElement {
    /// The text of the step.
    pub fn to_string(&self) -> (r: String)
        ensures
            r@ == spec_step_text(Ok::<TypePathElement, TypePathError>(*self)),
    {
        proof {
            reveal_strlit("[");
            reveal_strlit(".");
            reveal_strlit("*");
            reveal_strlit(";");
        }
        let mut text = String::new();
        match self {
            TypePathElement::ArrayElement => {
                text.append("[");
            },
            TypePathElement::InnerType => {
                text.append(".");
            },
            TypePathElement::WildcardBound => {
                text.append("*");
            },
            TypePathElement::TypeArgument(argument_index) => {
                let n: u8 = *argument_index;
                if n >= 100 {
                    text.append(digit_text(n / 100));
                }
                if n >= 10 {
                    text.append(digit_text(n / 10 % 10));
                }
                text.append(digit_text(n % 10));
                text.append(";");
            },
        }
        assert(text@ =~= spec_step_text(Ok::<TypePathElement, TypePathError>(*self)));
        text
    }
}

impl TypePath {
    /// The text of the path: the texts of its steps one after the other.
    pub fn to_string(&self) -> (r: String)
        ensures
            r@ == spec_path_text(self@, self@.len() as int),
    {
        let mut text = String::new();
        let len: usize = self.len();
        let mut i: usize = 0;
        assert(text@ =~= spec_path_text(self@, 0));
        while i < len
            invariant
                len == self@.len(),
                i <= len,
                text@ == spec_path_text(self@, i as int),
            decreases len - i,
        {
            match self.get(i) {
                Ok(step) => {
                    let step_text = step.to_string();
                    text.append(step_text.as_str());
                },
                Err(_) => {
                    proof {
                        reveal_strlit("?");
                    }
                    text.append("?");
                    assert("?"@ =~= seq!['?']);
                },
            }
            i = i + 1;
        }
        text
    }
}


impl std::str::FromStr for TypePath {
    type Err = ParseTypePathError;

    /// Parses the text of a type path, as `parse` does.
    fn from_str(s: &str) -> (r: Result<TypePath, ParseTypePathError>)
        ensures
            match spec_parse(s@) {
                ParsedTypePath::Path(steps) => r is Ok && r->Ok_0@ == steps,
                ParsedTypePath::UnexpectedChar { index, ch } => r is Err && r->Err_0.index == index
                    && r->Err_0.kind == ParseTypePathErrorKind::UnexpectedChar(ch),
                ParsedTypePath::NumberTooLarge { index } => r is Err && r->Err_0.index == index
                    && r->Err_0.kind is IntParseError,
                ParsedTypePath::ExpectedNumberTerminator { index } => r is Err && r->Err_0.index == index
                    && r->Err_0.kind == ParseTypePathErrorKind::ExpectedNumberTerminator,
            },
    {
        TypePath::parse(s)
    }
}

/// The decimal digits of a number stand for the number.
pub proof fn lemma_decimal_of_digits(n: u8)
    ensures
        spec_decimal(spec_digits(n)) == n,
        forall|k: int| 0 <= k < spec_digits(n).len() ==> spec_is_digit(#[trigger] spec_digits(n)[k]),
        1 <= spec_digits(n).len() <= 3,
{
    let digits = spec_digits(n);
    if n < 10 {
        assert(digits.drop_last() =~= Seq::<char>::empty());
        assert(spec_decimal(digits.drop_last()) == 0);
    } else if n < 100 {
        let one = seq![spec_digit_char(n / 10)];
        assert(digits.drop_last() =~= one);
        assert(one.drop_last() =~= Seq::<char>::empty());
        assert(spec_decimal(one.drop_last()) == 0);
        assert(spec_decimal(one) == n / 10);
    } else {
        let two = seq![spec_digit_char(n / 100), spec_digit_char(n / 10 % 10)];
        let one = seq![spec_digit_char(n / 100)];
        assert(digits.drop_last() =~= two);
        assert(two.drop_last() =~= one);
        assert(one.drop_last() =~= Seq::<char>::empty());
        assert(spec_decimal(one.drop_last()) == 0);
        assert(spec_decimal(one) == n / 100);
        assert(spec_decimal(two) == (n / 100) * 10 + n / 10 % 10);
    }
}

/// Parsing passes over digits: where a number has started, or starts, and
/// the characters from `i` to `end` are digits, the parse goes on at `end`
/// with the number started.
pub proof fn lemma_parse_passes_digits(text: Seq<char>, i: int, end: int, start: int, steps: Seq<TypePathStep>)
    requires
        0 <= start <= i <= end <= text.len(),
        forall|k: int| i <= k < end ==> spec_is_digit(#[trigger] text[k]),
    ensures
        i < end ==> spec_parse_from(text, i, if start < i {
            Some(start)
        } else {
            None
        }, steps) == spec_parse_from(text, end, Some(start), steps),
    decreases end - i,
{
    if i < end {
        assert(spec_is_digit(text[i]));
        if i + 1 < end {
            lemma_parse_passes_digits(text, i + 1, end, start, steps);
        }
    }
}

/// Parsing takes one step: where the text of a step of a kind stands at
/// `i`, the parse goes on behind it with the step found.
pub proof fn lemma_parse_takes_a_step(text: Seq<char>, i: int, steps: Seq<TypePathStep>, step: TypePathStep)
    requires
        step is Ok,
        0 <= i,
        i + spec_step_text(step).len() <= text.len(),
        text.subrange(i, i + spec_step_text(step).len()) == spec_step_text(step),
    ensures
        spec_parse_from(text, i, None, steps) == spec_parse_from(
            text,
            i + spec_step_text(step).len(),
            None,
            steps.push(step),
        ),
{
    let part = spec_step_text(step);
    assert(text[i] == part[0]) by {
        assert(text.subrange(i, i + part.len())[0] == text[i]);
    }
    match step {
        Ok(TypePathElement::TypeArgument(n)) => {
            lemma_decimal_of_digits(n);
            let digits = spec_digits(n);
            let end = i + digits.len();
            assert forall|k: int| i <= k < end implies spec_is_digit(#[trigger] text[k]) by {
                assert(text.subrange(i, i + part.len())[k - i] == text[k]);
                assert(part[k - i] == digits[k - i]);
            }
            lemma_parse_passes_digits(text, i, end, i, steps);
            assert(text[end] == ';') by {
                assert(text.subrange(i, i + part.len())[end - i] == text[end]);
            }
            assert(text.subrange(i, end) =~= digits) by {
                assert forall|k: int| 0 <= k < digits.len() implies text.subrange(i, end)[k] == digits[k] by {
                    assert(text.subrange(i, i + part.len())[k] == text[i + k]);
                    assert(part[k] == digits[k]);
                }
            }
        },
        _ => {},
    }
}

/// The text of the first steps of a path is the beginning of the text of
/// more of its steps, and the text of the next step follows it.
pub proof fn lemma_path_text_goes_on(steps: Seq<TypePathStep>, k: int, count: int)
    requires
        0 <= k < count,
    ensures
        spec_path_text(steps, k).len() + spec_step_text(steps[k]).len() <= spec_path_text(steps, count).len(),
        spec_path_text(steps, count).subrange(
            spec_path_text(steps, k).len() as int,
            (spec_path_text(steps, k).len() + spec_step_text(steps[k]).len()) as int,
        ) == spec_step_text(steps[k]),
        spec_path_text(steps, k + 1).len() == spec_path_text(steps, k).len() + spec_step_text(steps[k]).len(),
    decreases count - k,
{
    let head = spec_path_text(steps, k);
    let part = spec_step_text(steps[k]);
    if count == k + 1 {
        assert(spec_path_text(steps, count) == head + part);
        assert((head + part).subrange(head.len() as int, (head.len() + part.len()) as int) =~= part);
    } else {
        lemma_path_text_goes_on(steps, k, count - 1);
        let shorter = spec_path_text(steps, count - 1);
        let longer = spec_path_text(steps, count);
        assert(longer == shorter + spec_step_text(steps[count - 1]));
        assert(longer.subrange(head.len() as int, (head.len() + part.len()) as int) =~= shorter.subrange(
            head.len() as int,
            (head.len() + part.len()) as int,
        ));
    }
}

/// Parsing the text of a path from behind the text of its first `k` steps
/// on, with these steps found, gives the path.
pub proof fn lemma_parse_finds_the_rest(steps: Seq<TypePathStep>, k: int)
    requires
        0 <= k <= steps.len(),
        forall|j: int| 0 <= j < steps.len() ==> (#[trigger] steps[j]) is Ok,
    ensures
        spec_parse_from(
            spec_path_text(steps, steps.len() as int),
            spec_path_text(steps, k).len() as int,
            None,
            steps.take(k),
        ) == ParsedTypePath::Path(steps),
    decreases steps.len() - k,
{
    let text = spec_path_text(steps, steps.len() as int);
    if k == steps.len() {
        assert(steps.take(k) =~= steps);
    } else {
        lemma_path_text_goes_on(steps, k, steps.len() as int);
        lemma_parse_takes_a_step(text, spec_path_text(steps, k).len() as int, steps.take(k), steps[k]);
        assert(steps.take(k).push(steps[k]) =~= steps.take(k + 1));
        lemma_parse_finds_the_rest(steps, k + 1);
    }
}

/// A path whose steps are all of a kind is read back from its text:
/// parsing what `to_string` writes gives the path.
pub proof fn law_type_path_is_read_back(steps: Seq<TypePathStep>)
    requires
        forall|j: int| 0 <= j < steps.len() ==> (#[trigger] steps[j]) is Ok,
    ensures
        spec_parse(spec_path_text(steps, steps.len() as int)) == ParsedTypePath::Path(steps),
{
    lemma_parse_finds_the_rest(steps, 0);
    assert(steps.take(0) =~= Seq::<TypePathStep>::empty());
}
} // verus!

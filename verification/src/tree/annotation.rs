//! Annotations and the values of their elements.

use crate::text::JavaText;
use crate::type_annotation::{TypePath, TypePathStep, TypeReference};
use vstd::prelude::*;

verus! {

/// An annotation: the descriptor of its type and its elements, each a name
/// with a value, in the order in which the class file holds them.
#[derive(Debug, PartialEq, Eq)]
pub struct AnnotationNode {
    pub desc: JavaText,
    pub values: Vec<(JavaText, AnnotationValue)>,
}

/// The value of an element of an annotation. `Float` and `Double` hold the
/// bits of the IEEE-754 value.
#[derive(Debug, PartialEq, Eq)]
pub enum AnnotationValue {
    Byte(i8),
    Char(u16),
    Double(u64),
    Float(u32),
    Int(i32),
    Long(i64),
    Short(i16),
    Boolean(bool),
    String(JavaText),
    Enum { desc: JavaText, name: JavaText },
    Class(JavaText),
    Annotation(AnnotationNode),
    Array(Vec<AnnotationValue>),
}

pub struct AnnotationNodeView {
    pub desc: Seq<u8>,
    pub values: Seq<(Seq<u8>, AnnotationValueView)>,
}

pub enum AnnotationValueView {
    Byte(i8),
    Char(u16),
    Double(u64),
    Float(u32),
    Int(i32),
    Long(i64),
    Short(i16),
    Boolean(bool),
    String(Seq<u8>),
    Enum { desc: Seq<u8>, name: Seq<u8> },
    Class(Seq<u8>),
    Annotation(AnnotationNodeView),
    Array(Seq<AnnotationValueView>),
}

/// The view of an annotation.
pub open spec fn node_view(node: AnnotationNode) -> AnnotationNodeView
    decreases node,
{
    AnnotationNodeView {
        desc: node.desc@,
        values: Seq::new(
            node.values@.len(),
            |i: int|
                if 0 <= i < node.values@.len() {
                    (node.values@[i].0@, value_view(node.values@[i].1))
                } else {
                    arbitrary()
                },
        ),
    }
}

/// The view of the value of an element.
pub open spec fn value_view(value: AnnotationValue) -> AnnotationValueView
    decreases value,
{
    match value {
        AnnotationValue::Byte(v) => AnnotationValueView::Byte(v),
        AnnotationValue::Char(v) => AnnotationValueView::Char(v),
        AnnotationValue::Double(v) => AnnotationValueView::Double(v),
        AnnotationValue::Float(v) => AnnotationValueView::Float(v),
        AnnotationValue::Int(v) => AnnotationValueView::Int(v),
        AnnotationValue::Long(v) => AnnotationValueView::Long(v),
        AnnotationValue::Short(v) => AnnotationValueView::Short(v),
        AnnotationValue::Boolean(v) => AnnotationValueView::Boolean(v),
        AnnotationValue::String(v) => AnnotationValueView::String(v@),
        AnnotationValue::Enum { desc, name } => AnnotationValueView::Enum { desc: desc@, name: name@ },
        AnnotationValue::Class(v) => AnnotationValueView::Class(v@),
        AnnotationValue::Annotation(v) => AnnotationValueView::Annotation(node_view(v)),
        AnnotationValue::Array(v) => AnnotationValueView::Array(
            Seq::new(
                v@.len(),
                |i: int|
                    if 0 <= i < v@.len() {
                        value_view(v@[i])
                    } else {
                        arbitrary()
                    },
            ),
        ),
    }
}

impl DeepView for AnnotationNode {
    type V = AnnotationNodeView;

    open spec fn deep_view(&self) -> AnnotationNodeView {
        node_view(*self)
    }
}

impl DeepView for AnnotationValue {
    type V = AnnotationValueView;

    open spec fn deep_view(&self) -> AnnotationValueView {
        value_view(*self)
    }
}

/// The views of the elements of an annotation.
pub open spec fn elements_view(elements: Seq<(JavaText, AnnotationValue)>) -> Seq<
    (Seq<u8>, AnnotationValueView),
> {
    Seq::new(elements.len(), |i: int| (elements[i].0@, elements[i].1.deep_view()))
}

/// The views of the members of an array value.
pub open spec fn members_view(members: Seq<AnnotationValue>) -> Seq<AnnotationValueView> {
    Seq::new(members.len(), |i: int| members[i].deep_view())
}

/// The view of an annotation holds the views of its elements.
pub proof fn lemma_annotation_view(desc: JavaText, values: Vec<(JavaText, AnnotationValue)>)
    ensures
        (AnnotationNode { desc, values }).deep_view() == (AnnotationNodeView {
            desc: desc@,
            values: elements_view(values@),
        }),
{
    assert((AnnotationNode { desc, values }).deep_view().values =~= elements_view(values@));
}

/// The view of an array value holds the views of its members.
pub proof fn lemma_array_view(members: Vec<AnnotationValue>)
    ensures
        AnnotationValue::Array(members).deep_view() == AnnotationValueView::Array(members_view(members@)),
{
    let view = AnnotationValue::Array(members).deep_view();
    assert(view is Array);
    assert(view->Array_0.len() == members@.len());
    assert forall|i: int| 0 <= i < members@.len() implies view->Array_0[i] == members_view(members@)[i] by {
    }
    assert(view->Array_0 =~= members_view(members@));
}

/// An annotation on a use of a type.
#[derive(Debug, PartialEq, Eq)]
pub struct TypeAnnotationNode {
    pub type_ref: TypeReference,
    pub type_path: TypePath,
    pub desc: JavaText,
    pub values: Vec<(JavaText, AnnotationValue)>,
}

pub struct TypeAnnotationNodeView {
    pub type_ref: TypeReference,
    pub type_path: Seq<TypePathStep>,
    pub desc: Seq<u8>,
    pub values: Seq<(Seq<u8>, AnnotationValueView)>,
}

impl DeepView for TypeAnnotationNode {
    type V = TypeAnnotationNodeView;

    open spec fn deep_view(&self) -> TypeAnnotationNodeView {
        TypeAnnotationNodeView {
            type_ref: self.type_ref,
            type_path: self.type_path@,
            desc: self.desc@,
            values: elements_view(self.values@),
        }
    }
}

/// A copy of the elements of an annotation.
pub fn clone_elements(elements: &Vec<(JavaText, AnnotationValue)>) -> (r: Vec<(JavaText, AnnotationValue)>)
    ensures
        elements_view(r@) == elements_view(elements@),
    decreases elements, 1int,
{
    let mut copy: Vec<(JavaText, AnnotationValue)> = Vec::new();
    let mut i: usize = 0;
    while i < elements.len()
        invariant
            i <= elements@.len(),
            copy@.len() == i,
            forall|k: int|
                0 <= k < i ==> copy@[k].0@ == elements@[k].0@ && value_view(copy@[k].1) == value_view(
                    elements@[k].1,
                ),
        decreases elements@.len() - i,
    {
        let name = elements[i].0.clone();
        let value = clone_value(&elements[i].1);
        copy.push((name, value));
        i = i + 1;
    }
    assert(elements_view(copy@) =~= elements_view(elements@));
    copy
}

/// A copy of the members of an array value.
pub fn clone_members(members: &Vec<AnnotationValue>) -> (r: Vec<AnnotationValue>)
    ensures
        members_view(r@) == members_view(members@),
    decreases members, 1int,
{
    let mut copy: Vec<AnnotationValue> = Vec::new();
    let mut i: usize = 0;
    while i < members.len()
        invariant
            i <= members@.len(),
            copy@.len() == i,
            forall|k: int| 0 <= k < i ==> value_view(copy@[k]) == value_view(members@[k]),
        decreases members@.len() - i,
    {
        let value = clone_value(&members[i]);
        copy.push(value);
        i = i + 1;
    }
    assert(members_view(copy@) =~= members_view(members@));
    copy
}

/// A copy of the value of an element.
pub fn clone_value(value: &AnnotationValue) -> (r: AnnotationValue)
    ensures
        r.deep_view() == value.deep_view(),
    decreases value, 0int,
{
    match value {
        AnnotationValue::Byte(v) => AnnotationValue::Byte(*v),
        AnnotationValue::Char(v) => AnnotationValue::Char(*v),
        AnnotationValue::Double(v) => AnnotationValue::Double(*v),
        AnnotationValue::Float(v) => AnnotationValue::Float(*v),
        AnnotationValue::Int(v) => AnnotationValue::Int(*v),
        AnnotationValue::Long(v) => AnnotationValue::Long(*v),
        AnnotationValue::Short(v) => AnnotationValue::Short(*v),
        AnnotationValue::Boolean(v) => AnnotationValue::Boolean(*v),
        AnnotationValue::String(v) => AnnotationValue::String(v.clone()),
        AnnotationValue::Enum { desc, name } => AnnotationValue::Enum { desc: desc.clone(), name: name.clone() },
        AnnotationValue::Class(v) => AnnotationValue::Class(v.clone()),
        AnnotationValue::Annotation(node) => {
            let desc = node.desc.clone();
            let values = clone_elements(&node.values);
            proof {
                lemma_annotation_view(desc, values);
                lemma_annotation_view(node.desc, node.values);
            }
            AnnotationValue::Annotation(AnnotationNode { desc, values })
        },
        AnnotationValue::Array(members) => {
            let copy = clone_members(members);
            proof {
                lemma_array_view(copy);
                lemma_array_view(*members);
            }
            AnnotationValue::Array(copy)
        },
    }
}

impl Clone for AnnotationValue {
    fn clone(&self) -> (r: Self)
        ensures
            r.deep_view() == self.deep_view(),
    {
        clone_value(self)
    }
}

impl Clone for AnnotationNode {
    fn clone(&self) -> (r: Self)
        ensures
            r.deep_view() == self.deep_view(),
    {
        let desc = self.desc.clone();
        let values = clone_elements(&self.values);
        proof {
            lemma_annotation_view(desc, values);
            lemma_annotation_view(self.desc, self.values);
        }
        AnnotationNode { desc, values }
    }
}

impl Clone for TypeAnnotationNode {
    fn clone(&self) -> (r: Self)
        ensures
            r.deep_view() == self.deep_view(),
    {
        TypeAnnotationNode {
            type_ref: self.type_ref,
            type_path: self.type_path.clone(),
            desc: self.desc.clone(),
            values: clone_elements(&self.values),
        }
    }
}

} // verus!

//! Stack map frames.

use crate::label::Label;
use crate::text::JavaText;
use vstd::prelude::*;

verus! {

/// The verification type of a local variable or of a value on the stack.
#[derive(Debug, Clone, PartialEq, Eq, PartialOrd, Ord, Hash)]
pub enum FrameValue {
    Top,
    Integer,
    Float,
    Long,
    Double,
    Null,
    UninitializedThis,
    /// An object of the class with this name.
    Class(JavaText),
    /// An object that the `new` instruction at the label has made and no
    /// constructor has yet run on.
    Uninitialized(Label),
}

pub enum FrameValueView {
    Top,
    Integer,
    Float,
    Long,
    Double,
    Null,
    UninitializedThis,
    Class(Seq<u8>),
    Uninitialized(Label),
}

impl DeepView for FrameValue {
    type V = FrameValueView;

    open spec fn deep_view(&self) -> FrameValueView {
        match self {
            FrameValue::Top => FrameValueView::Top,
            FrameValue::Integer => FrameValueView::Integer,
            FrameValue::Float => FrameValueView::Float,
            FrameValue::Long => FrameValueView::Long,
            FrameValue::Double => FrameValueView::Double,
            FrameValue::Null => FrameValueView::Null,
            FrameValue::UninitializedThis => FrameValueView::UninitializedThis,
            FrameValue::Class(v) => FrameValueView::Class(v@),
            FrameValue::Uninitialized(v) => FrameValueView::Uninitialized(*v),
        }
    }
}

/// The types of the locals and of the stack at one place in the code.
#[derive(Debug, Clone, PartialEq, Eq, PartialOrd, Ord, Hash)]
pub enum Frame {
    /// All locals and the whole stack.
    Full { locals: Vec<FrameValue>, stack: Vec<FrameValue> },
    /// The locals of the frame before and these after them; an empty stack.
    Append { locals: Vec<FrameValue> },
    /// The locals of the frame before without the last `num_locals`; an
    /// empty stack.
    Chop { num_locals: u8 },
    /// The locals of the frame before; an empty stack.
    Same,
    /// The locals of the frame before; one value on the stack.
    Same1 { stack_value: FrameValue },
    /// A frame in expanded form. No class file holds one.
    New { locals: Vec<FrameValue>, stack: Vec<FrameValue> },
}

pub enum FrameView {
    Full { locals: Seq<FrameValueView>, stack: Seq<FrameValueView> },
    Append { locals: Seq<FrameValueView> },
    Chop { num_locals: u8 },
    Same,
    Same1 { stack_value: FrameValueView },
    New { locals: Seq<FrameValueView>, stack: Seq<FrameValueView> },
}

impl DeepView for Frame {
    type V = FrameView;

    open spec fn deep_view(&self) -> FrameView {
        match self {
            Frame::Full { locals, stack } => FrameView::Full {
                locals: locals.deep_view(),
                stack: stack.deep_view(),
            },
            Frame::Append { locals } => FrameView::Append {
                locals: locals.deep_view(),
            },
            Frame::Chop { num_locals } => FrameView::Chop {
                num_locals: *num_locals,
            },
            Frame::Same => FrameView::Same,
            Frame::Same1 { stack_value } => FrameView::Same1 {
                stack_value: stack_value.deep_view(),
            },
            Frame::New { locals, stack } => FrameView::New {
                locals: locals.deep_view(),
                stack: stack.deep_view(),
            },
        }
    }
}

} // verus!

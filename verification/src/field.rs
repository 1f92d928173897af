//! Constant values of fields.

use crate::text::JavaText;
use vstd::prelude::*;

verus! {

/// The constant value of a field. `Float` and `Double` hold the bits of the
/// IEEE-754 value.
#[derive(Debug, Clone, PartialEq, Eq, PartialOrd, Ord, Hash)]
pub enum FieldValue {
    Integer(i32),
    Float(u32),
    Long(i64),
    Double(u64),
    String(JavaText),
}

pub enum FieldValueView {
    Integer(i32),
    Float(u32),
    Long(i64),
    Double(u64),
    String(Seq<u8>),
}

impl DeepView for FieldValue {
    type V = FieldValueView;

    open spec fn deep_view(&self) -> FieldValueView {
        match self {
            FieldValue::Integer(v) => FieldValueView::Integer(*v),
            FieldValue::Float(v) => FieldValueView::Float(*v),
            FieldValue::Long(v) => FieldValueView::Long(*v),
            FieldValue::Double(v) => FieldValueView::Double(*v),
            FieldValue::String(v) => FieldValueView::String(v@),
        }
    }
}

} // verus!

//! Labels: identifiers of places in the code of the methods of a class.

use vstd::prelude::*;

verus! {

/// The identifier of a place in the code of a method: the index of the
/// method among the methods of its class, and the number of the label among
/// the labels of that method. Two labels stand for the same place exactly
/// when they are equal; a label means nothing beyond that.
#[derive(Debug, Copy, Clone, PartialEq, Eq, Structural, PartialOrd, Ord, Hash)]
pub struct Label {
    pub method: u16,
    pub number: u32,
}

impl DeepView for Label {
    type V = Label;

    open spec fn deep_view(&self) -> Label {
        *self
    }
}

/// Makes the labels of one method. There is one creator for a method and no
/// way to copy it: whoever holds it makes the labels. Each call gives a
/// label that no earlier call gave, until the counter has gone round all of
/// its 2^32 values.
#[derive(Debug)]
pub struct LabelCreator {
    method: u16,
    next_id: u32,
}

/// What a creator is, mathematically: the index of its method and the
/// number of the label that comes next.
pub struct LabelCreatorView {
    pub method: u16,
    pub next: u32,
}

impl View for LabelCreator {
    type V = LabelCreatorView;

    closed spec fn view(&self) -> LabelCreatorView {
        LabelCreatorView { method: self.method, next: self.next_id }
    }
}

/// The number that follows `n`, round the largest number.
pub open spec fn spec_succ(n: u32) -> u32 {
    if n == u32::MAX {
        0u32
    } else {
        (n + 1) as u32
    }
}

/// The creator after it has made `n` labels.
pub open spec fn spec_creator_after(at: LabelCreatorView, n: nat) -> LabelCreatorView {
    LabelCreatorView { method: at.method, next: ((at.next + n) % 0x1_0000_0000) as u32 }
}

/// The label that the creator makes after it has made `n` others.
pub open spec fn spec_label_after(at: LabelCreatorView, n: nat) -> Label {
    Label { method: at.method, number: spec_creator_after(at, n).next }
}

/// Making `a` labels and then `b` more is making `a + b` labels: the label
/// that a creator makes at its call number `n` is the one that stands `n`
/// behind the first.
pub proof fn law_creator_goes_on(at: LabelCreatorView, a: nat, b: nat)
    ensures
        spec_creator_after(spec_creator_after(at, a), b) == spec_creator_after(at, a + b),
        spec_label_after(spec_creator_after(at, a), b) == spec_label_after(at, a + b),
        spec_creator_after(at, 1) == (LabelCreatorView { method: at.method, next: spec_succ(at.next) }),
        spec_creator_after(at, 0) == at,
{
}

/// The labels that one creator makes differ from one another, until it has
/// made 2^32 of them.
pub proof fn law_labels_of_a_creator_differ(at: LabelCreatorView, i: nat, j: nat)
    requires
        i < j < 0x1_0000_0000,
    ensures
        spec_label_after(at, i) != spec_label_after(at, j),
{
}

/// The numbers of the labels that one creator makes rise, as long as the
/// counter has not gone round.
pub proof fn law_labels_of_a_creator_rise(at: LabelCreatorView, i: nat, j: nat)
    requires
        i < j,
        at.next + j < 0x1_0000_0000,
    ensures
        spec_label_after(at, i).number < spec_label_after(at, j).number,
        spec_label_after(at, i).method == spec_label_after(at, j).method,
{
}

/// The labels of the creators of two methods differ, however many each has
/// made.
pub proof fn law_labels_of_two_methods_differ(a: LabelCreatorView, b: LabelCreatorView, i: nat, j: nat)
    requires
        a.method != b.method,
    ensures
        spec_label_after(a, i) != spec_label_after(b, j),
{
}

impl LabelCreator {
    /// A creator for a method that stands in no class: its labels have the
    /// method index zero, and the first of them the number zero.
    pub fn new() -> (r: Self)
        ensures
            r@ == (LabelCreatorView { method: 0, next: 0 }),
    {
        LabelCreator { method: 0, next_id: 0 }
    }

    /// The creator for the method with index `method` among the methods of
    /// its class. Its first label has the number zero.
    pub(crate) fn for_method(method: u16) -> (r: Self)
        ensures
            r@ == (LabelCreatorView { method, next: 0 }),
    {
        LabelCreator { method, next_id: 0 }
    }

    /// A new label: it has the creator's method and the creator's count,
    /// which goes up by one and wraps round behind the largest number.
    pub fn create_label(&mut self) -> (label: Label)
        ensures
            label == spec_label_after(old(self)@, 0),
            final(self)@ == spec_creator_after(old(self)@, 1),
    {
        let id: u32 = self.next_id;
        self.next_id = if id == u32::MAX {
            0
        } else {
            id + 1
        };
        Label { method: self.method, number: id }
    }
}

impl Default for LabelCreator {
    fn default() -> (r: Self)
        ensures
            r@ == (LabelCreatorView { method: 0, next: 0 }),
    {
        LabelCreator::new()
    }
}

} // verus!

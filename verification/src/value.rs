//! What the compiled operations do, for every schema.
//!
//! The compiler emits source text. This module holds the same operations
//! over a value that can stand for a node of any schema: the fields of the
//! node in the order of their declaration, each as what its kind makes of
//! it. A field that is the recursive position holds a child, a field that
//! nests it holds the children that its container reaches, in the order in
//! which it reaches them, and a leaf holds itself. The laws of the
//! operations are proved of every such value.

use crate::emit::CHILD;
use crate::entish::{classify, Node, NodeView};
use crate::ty::FieldKind;
use vstd::prelude::*;

verus! {

/// What one field of a node holds.
#[derive(Debug, Clone, PartialEq, Eq)]
pub enum Slot<Child, Leaf> {
    /// The field is the recursive position.
    Child(Child),
    /// The field nests the recursive position in a container.
    Nested(Vec<Child>),
    /// The field does not mention the recursive position.
    Leaf(Leaf),
}

/// The mathematical value of a [`Slot`].
pub enum SlotView<Child, Leaf> {
    Child(Child),
    Nested(Seq<Child>),
    Leaf(Leaf),
}

impl<Child, Leaf> View for Slot<Child, Leaf> {
    type V = SlotView<Child, Leaf>;

    open spec fn view(&self) -> SlotView<Child, Leaf> {
        match self {
            Slot::Child(child) => SlotView::Child(*child),
            Slot::Nested(children) => SlotView::Nested(children@),
            Slot::Leaf(leaf) => SlotView::Leaf(*leaf),
        }
    }
}

/// A value of a node type: its fields in the order of their declaration.
#[derive(Debug, Clone, PartialEq, Eq)]
pub struct NodeValue<Child, Leaf> {
    pub slots: Vec<Slot<Child, Leaf>>,
}

impl<Child, Leaf> View for NodeValue<Child, Leaf> {
    type V = Seq<SlotView<Child, Leaf>>;

    open spec fn view(&self) -> Seq<SlotView<Child, Leaf>> {
        Seq::new(self.slots@.len(), |i: int| self.slots@[i]@)
    }
}

/// A value of the sum type: the node of the active variant under the
/// position of that variant in the schema.
#[derive(Debug, Clone, PartialEq, Eq)]
pub struct SumValue<Child, Leaf> {
    pub variant: usize,
    pub node: NodeValue<Child, Leaf>,
}

/// The children that one field holds, in order.
pub open spec fn slot_children<Child, Leaf>(slot: SlotView<Child, Leaf>) -> Seq<Child> {
    match slot {
        SlotView::Child(child) => seq![child],
        SlotView::Nested(children) => children,
        SlotView::Leaf(_) => Seq::empty(),
    }
}

/// The children that the first `upto` fields hold, in field order.
pub open spec fn children_upto<Child, Leaf>(slots: Seq<SlotView<Child, Leaf>>, upto: int) -> Seq<
    Child,
>
    decreases upto,
{
    if upto <= 0 {
        Seq::empty()
    } else {
        children_upto(slots, upto - 1) + slot_children(slots[upto - 1])
    }
}

/// The immediate children of a node, in field order.
pub open spec fn children<Child, Leaf>(slots: Seq<SlotView<Child, Leaf>>) -> Seq<Child> {
    children_upto(slots, slots.len() as int)
}

/// Whether `f` may be called on every child that the field holds.
pub open spec fn slot_accepts<Child, Leaf, O, F: Fn(Child) -> O>(
    f: F,
    slot: SlotView<Child, Leaf>,
) -> bool {
    forall|j: int|
        0 <= j < slot_children(slot).len() ==> call_requires(f, (#[trigger] slot_children(slot)[j],))
}

/// Whether `to` is what a map by `f` may make of the field `from`: a field
/// of the same kind, with an image under `f` in place of each child and the
/// leaf as it was.
pub open spec fn slot_maps_to<Child, Leaf, O, F: Fn(Child) -> O>(
    f: F,
    from: SlotView<Child, Leaf>,
    to: SlotView<O, Leaf>,
) -> bool {
    match from {
        SlotView::Child(child) => to matches SlotView::Child(image) && call_ensures(
            f,
            (child,),
            image,
        ),
        SlotView::Nested(children) => to matches SlotView::Nested(images) && images.len()
            == children.len() && forall|j: int|
            0 <= j < children.len() ==> call_ensures(f, (children[j],), #[trigger] images[j]),
        SlotView::Leaf(leaf) => to == SlotView::<O, Leaf>::Leaf(leaf),
    }
}

/// Whether `to` is what a map by `f` may make of the node `from`: as many
/// fields, each mapped by itself.
pub open spec fn maps_to<Child, Leaf, O, F: Fn(Child) -> O>(
    f: F,
    from: Seq<SlotView<Child, Leaf>>,
    to: Seq<SlotView<O, Leaf>>,
) -> bool {
    &&& to.len() == from.len()
    &&& forall|i: int| 0 <= i < from.len() ==> slot_maps_to(f, from[i], #[trigger] to[i])
}

/// What the first `upto` of `outcomes` come to: the first failure among
/// them, or what they all hold.
pub open spec fn unwrapped_upto<Child, E>(outcomes: Seq<Result<Child, E>>, upto: int) -> Result<
    Seq<Child>,
    E,
>
    decreases upto,
{
    if upto <= 0 {
        Ok(Seq::empty())
    } else {
        match unwrapped_upto(outcomes, upto - 1) {
            Err(error) => Err(error),
            Ok(before) => match outcomes[upto - 1] {
                Err(error) => Err(error),
                Ok(child) => Ok(before.push(child)),
            },
        }
    }
}

/// What sequencing makes of one field: the first failure that it holds, or
/// the field of what its children hold.
pub open spec fn slot_sequenced<Child, Leaf, E>(slot: SlotView<Result<Child, E>, Leaf>) -> Result<
    SlotView<Child, Leaf>,
    E,
> {
    match slot {
        SlotView::Child(Ok(child)) => Ok(SlotView::Child(child)),
        SlotView::Child(Err(error)) => Err(error),
        SlotView::Nested(outcomes) => match unwrapped_upto(outcomes, outcomes.len() as int) {
            Ok(children) => Ok(SlotView::Nested(children)),
            Err(error) => Err(error),
        },
        SlotView::Leaf(leaf) => Ok(SlotView::Leaf(leaf)),
    }
}

/// What sequencing makes of the first `upto` fields: the first failure in
/// field order, or the fields of what the children hold.
pub open spec fn sequenced_upto<Child, Leaf, E>(
    slots: Seq<SlotView<Result<Child, E>, Leaf>>,
    upto: int,
) -> Result<Seq<SlotView<Child, Leaf>>, E>
    decreases upto,
{
    if upto <= 0 {
        Ok(Seq::empty())
    } else {
        match sequenced_upto(slots, upto - 1) {
            Err(error) => Err(error),
            Ok(before) => match slot_sequenced(slots[upto - 1]) {
                Err(error) => Err(error),
                Ok(slot) => Ok(before.push(slot)),
            },
        }
    }
}

/// What sequencing makes of a node.
pub open spec fn sequenced<Child, Leaf, E>(slots: Seq<SlotView<Result<Child, E>, Leaf>>) -> Result<
    Seq<SlotView<Child, Leaf>>,
    E,
> {
    sequenced_upto(slots, slots.len() as int)
}

/// The node as the variant at `variant`.
pub open spec fn injected<Child, Leaf>(variant: usize, node: Seq<SlotView<Child, Leaf>>) -> (
    usize,
    Seq<SlotView<Child, Leaf>>,
) {
    (variant, node)
}

/// The node inside `sum` where the variant at `variant` is active, and the
/// unit failure where another is.
pub open spec fn projected<Child, Leaf>(
    sum: (usize, Seq<SlotView<Child, Leaf>>),
    variant: usize,
) -> Result<Seq<SlotView<Child, Leaf>>, ()> {
    if sum.0 == variant {
        Ok(sum.1)
    } else {
        Err(())
    }
}

impl<Child, Leaf> View for SumValue<Child, Leaf> {
    type V = (usize, Seq<SlotView<Child, Leaf>>);

    open spec fn view(&self) -> (usize, Seq<SlotView<Child, Leaf>>) {
        (self.variant, self.node@)
    }
}

/// The kind of field that holds `slot`.
pub open spec fn slot_kind<Child, Leaf>(slot: SlotView<Child, Leaf>) -> FieldKind {
    match slot {
        SlotView::Child(_) => FieldKind::Child,
        SlotView::Nested(_) => FieldKind::Container,
        SlotView::Leaf(_) => FieldKind::Leaf,
    }
}

/// Whether `value` is a value of the node type `node`: it has one slot for
/// each field, and each slot is of the kind of its field.
pub open spec fn fits<Child, Leaf>(value: Seq<SlotView<Child, Leaf>>, node: NodeView) -> bool {
    &&& value.len() == node.fields.fields.len()
    &&& forall|i: int|
        0 <= i < value.len() ==> slot_kind(#[trigger] value[i]) == node.fields.fields[i].ty.kind(
            CHILD@,
        )
}

/// Whether `to` is what a map by `f` under a borrow may make of the field
/// `from`: a field of the same kind, with an image under `f` in place of
/// each child and a reference to the leaf in place of the leaf.
pub open spec fn slot_borrows_to<'a, Child, Leaf, O, F: Fn(&'a Child) -> O>(
    f: F,
    from: &'a SlotView<Child, Leaf>,
    to: SlotView<O, &'a Leaf>,
) -> bool {
    match from {
        SlotView::Child(child) => to matches SlotView::Child(image) && call_ensures(
            f,
            (child,),
            image,
        ),
        SlotView::Nested(children) => to matches SlotView::Nested(images) && images.len()
            == children.len() && forall|j: int|
            0 <= j < children.len() ==> call_ensures(f, (&children[j],), #[trigger] images[j]),
        SlotView::Leaf(leaf) => to == SlotView::<O, &'a Leaf>::Leaf(leaf),
    }
}

/// The field with a reference to each child in place of the child and a
/// reference to the leaf in place of the leaf.
pub open spec fn slot_borrowed<'a, Child, Leaf>(slot: &'a SlotView<Child, Leaf>) -> SlotView<
    &'a Child,
    &'a Leaf,
> {
    match slot {
        SlotView::Child(child) => SlotView::Child(child),
        SlotView::Nested(children) => SlotView::Nested(
            Seq::new(children.len(), |j: int| &children[j]),
        ),
        SlotView::Leaf(leaf) => SlotView::Leaf(leaf),
    }
}

/// Applies `f` to each of `children`, first to last.
fn map_all<Child, O, F>(children: Vec<Child>, f: &F) -> (images: Vec<O>) where F: Fn(Child) -> O
    requires
        forall|j: int| 0 <= j < children@.len() ==> call_requires(*f, (#[trigger] children@[j],)),
    ensures
        images@.len() == children@.len(),
        forall|j: int|
            0 <= j < children@.len() ==> call_ensures(*f, (children@[j],), #[trigger] images@[j]),
{
    let ghost all = children@;
    let mut rest = children;
    let mut images: Vec<O> = Vec::new();
    while rest.len() > 0
        invariant
            images.len() + rest.len() == all.len(),
            rest@ == all.skip(images.len() as int),
            forall|j: int| 0 <= j < all.len() ==> call_requires(*f, (#[trigger] all[j],)),
            forall|j: int|
                0 <= j < images.len() ==> call_ensures(*f, (all[j],), #[trigger] images@[j]),
        decreases rest.len(),
    {
        let ghost at = images.len() as int;
        assert(rest@[0] == all[at]);
        let child = rest.remove(0);
        assert(rest@ =~= all.skip(at + 1));
        images.push(f(child));
    }
    images
}

/// What the outcomes hold, or the first failure among them.
fn unwrap_all<Child, E>(outcomes: Vec<Result<Child, E>>) -> (out: Result<Vec<Child>, E>)
    ensures
        match out {
            Ok(children) => unwrapped_upto(outcomes@, outcomes@.len() as int) == Ok::<
                Seq<Child>,
                E,
            >(children@),
            Err(error) => unwrapped_upto(outcomes@, outcomes@.len() as int) == Err::<
                Seq<Child>,
                E,
            >(error),
        },
{
    let ghost all = outcomes@;
    let mut rest = outcomes;
    let mut children: Vec<Child> = Vec::new();
    while rest.len() > 0
        invariant
            all == outcomes@,
            children.len() + rest.len() == all.len(),
            rest@ == all.skip(children.len() as int),
            unwrapped_upto(all, children.len() as int) == Ok::<Seq<Child>, E>(children@),
        decreases rest.len(),
    {
        let ghost at = children.len() as int;
        assert(rest@[0] == all[at]);
        let outcome = rest.remove(0);
        assert(rest@ =~= all.skip(at + 1));
        match outcome {
            Ok(child) => {
                children.push(child);
            },
            Err(error) => {
                proof {
                    assert(all[at] == Err::<Child, E>(error));
                    assert(unwrapped_upto(all, at + 1) == Err::<Seq<Child>, E>(error));
                    lemma_failure_stays(all, at + 1, all.len() as int);
                }
                return Err(error);
            },
        }
    }
    Ok(children)
}

/// A failure among the first outcomes is the failure of every longer run.
pub proof fn lemma_failure_stays<Child, E>(outcomes: Seq<Result<Child, E>>, at: int, upto: int)
    requires
        0 <= at <= upto,
        unwrapped_upto(outcomes, at) is Err,
    ensures
        unwrapped_upto(outcomes, upto) == unwrapped_upto(outcomes, at),
    decreases upto - at,
{
    if at < upto {
        lemma_failure_stays(outcomes, at, upto - 1);
    }
}

/// A failure among the first fields is the failure of the whole node.
pub proof fn lemma_slot_failure_stays<Child, Leaf, E>(
    slots: Seq<SlotView<Result<Child, E>, Leaf>>,
    at: int,
    upto: int,
)
    requires
        0 <= at <= upto,
        sequenced_upto(slots, at) is Err,
    ensures
        sequenced_upto(slots, upto) == sequenced_upto(slots, at),
    decreases upto - at,
{
    if at < upto {
        lemma_slot_failure_stays(slots, at, upto - 1);
    }
}

impl<Child, Leaf> NodeValue<Child, Leaf> {
    /// References to the immediate children, in field order: for each field
    /// what it holds, nothing for a leaf, and no child of a child.
    pub fn iter_children(&self) -> (out: Vec<&Child>)
        ensures
            out@.len() == children(self@).len(),
            forall|k: int| 0 <= k < out@.len() ==> *out@[k] == children(self@)[k],
    {
        let mut out: Vec<&Child> = Vec::new();
        let mut i: usize = 0;
        while i < self.slots.len()
            invariant
                i <= self.slots.len(),
                out@.len() == children_upto(self@, i as int).len(),
                forall|k: int| 0 <= k < out@.len() ==> *out@[k] == children_upto(self@, i as int)[k],
            decreases self.slots.len() - i,
        {
            let ghost before = children_upto(self@, i as int);
            assert(self@[i as int] == self.slots@[i as int]@);
            match &self.slots[i] {
                Slot::Child(child) => {
                    out.push(child);
                },
                Slot::Nested(nested) => {
                    let mut j: usize = 0;
                    while j < nested.len()
                        invariant
                            j <= nested.len(),
                            out@.len() == before.len() + j,
                            forall|k: int| 0 <= k < before.len() ==> *out@[k] == before[k],
                            forall|k: int| 0 <= k < j ==> *out@[before.len() + k] == nested@[k],
                        decreases nested.len() - j,
                    {
                        out.push(&nested[j]);
                        j += 1;
                    }
                },
                Slot::Leaf(_) => {},
            }
            i += 1;
        }
        out
    }

    /// Whether the value is a value of the node type `node`.
    pub fn fits(&self, node: &Node) -> (fitting: bool)
        ensures
            fitting == fits(self@, node@),
    {
        if self.slots.len() != node.fields.len() {
            return false;
        }
        let marker = String::from_str(CHILD);
        let mut i: usize = 0;
        while i < self.slots.len()
            invariant
                i <= self.slots.len(),
                marker@ == CHILD@,
                self.slots.len() == node@.fields.fields.len(),
                forall|k: int|
                    0 <= k < i ==> slot_kind(#[trigger] self@[k]) == node@.fields.fields[k].ty.kind(
                        CHILD@,
                    ),
            decreases self.slots.len() - i,
        {
            let wanted = classify(node.fields.ty(i), &marker);
            let same = match &self.slots[i] {
                Slot::Child(_) => wanted == FieldKind::Child,
                Slot::Nested(_) => wanted == FieldKind::Container,
                Slot::Leaf(_) => wanted == FieldKind::Leaf,
            };
            assert(self@[i as int] == self.slots@[i as int]@);
            if !same {
                return false;
            }
            i += 1;
        }
        true
    }

    /// Applies `f` to a reference to every child, in field order, and keeps
    /// a reference to everything else. The node itself is left as it was.
    pub fn map<'a, O, F>(&'a self, f: &F) -> (out: NodeValue<O, &'a Leaf>) where
        F: Fn(&'a Child) -> O,

        requires
            forall|i: int, j: int|
                0 <= i < self@.len() && 0 <= j < slot_children(self@[i]).len() ==> call_requires(
                    *f,
                    (&#[trigger] slot_children(self@[i])[j],),
                ),
        ensures
            out@.len() == self@.len(),
            forall|i: int| 0 <= i < self@.len() ==> slot_borrows_to(*f, &self@[i], #[trigger] out@[i]),
    {
        let mut slots: Vec<Slot<O, &'a Leaf>> = Vec::new();
        let mut i: usize = 0;
        while i < self.slots.len()
            invariant
                i <= self.slots.len(),
                slots.len() == i,
                forall|i: int, j: int|
                    0 <= i < self@.len() && 0 <= j < slot_children(self@[i]).len()
                        ==> call_requires(*f, (&#[trigger] slot_children(self@[i])[j],)),
                forall|k: int|
                    0 <= k < i ==> slot_borrows_to(*f, &self@[k], (#[trigger] slots@[k])@),
            decreases self.slots.len() - i,
        {
            assert(self@[i as int] == self.slots@[i as int]@);
            let mapped = match &self.slots[i] {
                Slot::Child(child) => {
                    assert(slot_children(self@[i as int])[0] == *child);
                    Slot::Child(f(child))
                },
                Slot::Nested(nested) => {
                    let mut images: Vec<O> = Vec::new();
                    let mut j: usize = 0;
                    while j < nested.len()
                        invariant
                            j <= nested.len(),
                            images.len() == j,
                            i < self.slots.len(),
                            slot_children(self@[i as int]) == nested@,
                            forall|i: int, j: int|
                                0 <= i < self@.len() && 0 <= j < slot_children(self@[i]).len()
                                    ==> call_requires(
                                    *f,
                                    (&#[trigger] slot_children(self@[i])[j],),
                                ),
                            forall|k: int|
                                0 <= k < j ==> call_ensures(
                                    *f,
                                    (&nested@[k],),
                                    #[trigger] images@[k],
                                ),
                        decreases nested.len() - j,
                    {
                        assert(slot_children(self@[i as int])[j as int] == nested@[j as int]);
                        images.push(f(&nested[j]));
                        j += 1;
                    }
                    Slot::Nested(images)
                },
                Slot::Leaf(leaf) => Slot::Leaf(leaf),
            };
            slots.push(mapped);
            i += 1;
        }
        NodeValue { slots }
    }

    /// Applies `f` to every child, in field order, and keeps everything
    /// else. The node is consumed.
    pub fn map_owned<O, F>(self, f: &F) -> (out: NodeValue<O, Leaf>) where F: Fn(Child) -> O
        requires
            forall|i: int| 0 <= i < self@.len() ==> slot_accepts(*f, #[trigger] self@[i]),
        ensures
            maps_to(*f, self@, out@),
    {
        let ghost all = self@;
        let ghost given = self.slots@;
        let mut rest = self.slots;
        let mut slots: Vec<Slot<O, Leaf>> = Vec::new();
        while rest.len() > 0
            invariant
                given.len() == all.len(),
                forall|i: int| 0 <= i < all.len() ==> all[i] == (#[trigger] given[i])@,
                slots.len() + rest.len() == all.len(),
                rest@ == given.skip(slots.len() as int),
                forall|i: int| 0 <= i < all.len() ==> slot_accepts(*f, #[trigger] all[i]),
                forall|i: int|
                    0 <= i < slots.len() ==> slot_maps_to(*f, all[i], (#[trigger] slots@[i])@),
            decreases rest.len(),
        {
            let ghost at = slots.len() as int;
            assert(rest@[0] == given[at]);
            let slot = rest.remove(0);
            assert(rest@ =~= given.skip(at + 1));
            assert(slot_accepts(*f, all[at]));
            let mapped = match slot {
                Slot::Child(child) => {
                    assert(slot_children(all[at])[0] == child);
                    Slot::Child(f(child))
                },
                Slot::Nested(nested) => {
                    assert forall|j: int| 0 <= j < nested@.len() implies call_requires(
                        *f,
                        (#[trigger] nested@[j],),
                    ) by {
                        assert(slot_children(all[at])[j] == nested@[j]);
                    }
                    Slot::Nested(map_all(nested, f))
                },
                Slot::Leaf(leaf) => Slot::Leaf(leaf),
            };
            slots.push(mapped);
        }
        NodeValue { slots }
    }
}

impl<Child, Leaf, E> NodeValue<Result<Child, E>, Leaf> {
    /// Turns a node of results into the result of a node: the first failure
    /// in field order, or the node of what the children hold.
    pub fn into_result(self) -> (out: Result<NodeValue<Child, Leaf>, E>)
        ensures
            match out {
                Ok(node) => sequenced(self@) == Ok::<Seq<SlotView<Child, Leaf>>, E>(node@),
                Err(error) => sequenced(self@) == Err::<Seq<SlotView<Child, Leaf>>, E>(error),
            },
    {
        let ghost all = self@;
        let ghost given = self.slots@;
        let mut rest = self.slots;
        let mut slots: Vec<Slot<Child, Leaf>> = Vec::new();
        assert(Seq::new(slots@.len(), |i: int| slots@[i]@) =~= Seq::<SlotView<Child, Leaf>>::empty());
        while rest.len() > 0
            invariant
                all == self@,
                given.len() == all.len(),
                forall|i: int| 0 <= i < all.len() ==> all[i] == (#[trigger] given[i])@,
                slots.len() + rest.len() == all.len(),
                rest@ == given.skip(slots.len() as int),
                sequenced_upto(all, slots.len() as int) == Ok::<Seq<SlotView<Child, Leaf>>, E>(
                    Seq::new(slots@.len(), |i: int| slots@[i]@),
                ),
            decreases rest.len(),
        {
            let ghost at = slots.len() as int;
            let ghost before = Seq::new(slots@.len(), |i: int| slots@[i]@);
            assert(rest@[0] == given[at]);
            let slot = rest.remove(0);
            assert(rest@ =~= given.skip(at + 1));
            let unwrapped = match slot {
                Slot::Child(Ok(child)) => Slot::Child(child),
                Slot::Child(Err(error)) => {
                    proof {
                        assert(slot_sequenced(all[at]) == Err::<SlotView<Child, Leaf>, E>(error));
                        assert(sequenced_upto(all, at + 1) == Err::<
                            Seq<SlotView<Child, Leaf>>,
                            E,
                        >(error));
                        lemma_slot_failure_stays(all, at + 1, all.len() as int);
                    }
                    return Err(error);
                },
                Slot::Nested(nested) => match unwrap_all(nested) {
                    Ok(children) => Slot::Nested(children),
                    Err(error) => {
                        proof {
                            assert(slot_sequenced(all[at]) == Err::<SlotView<Child, Leaf>, E>(
                                error,
                            ));
                            assert(sequenced_upto(all, at + 1) == Err::<
                                Seq<SlotView<Child, Leaf>>,
                                E,
                            >(error));
                            lemma_slot_failure_stays(all, at + 1, all.len() as int);
                        }
                        return Err(error);
                    },
                },
                Slot::Leaf(leaf) => Slot::Leaf(leaf),
            };
            slots.push(unwrapped);
            assert(Seq::new(slots@.len(), |i: int| slots@[i]@) =~= before.push(unwrapped@));
        }
        Ok(NodeValue { slots })
    }
}

impl<Child, Leaf> SumValue<Child, Leaf> {
    /// Wraps `node` as the variant at `variant`. This always succeeds.
    pub fn inject(variant: usize, node: NodeValue<Child, Leaf>) -> (sum: Self)
        ensures
            sum@ == injected(variant, node@),
            sum.node == node,
    {
        SumValue { variant, node }
    }

    /// Unwraps the node where the variant at `variant` is active, and fails
    /// with the unit value where another is.
    pub fn project(self, variant: usize) -> (out: Result<NodeValue<Child, Leaf>, ()>)
        ensures
            out is Ok == (self.variant == variant),
            out matches Ok(node) ==> node == self.node && projected(self@, variant) == Ok::<
                Seq<SlotView<Child, Leaf>>,
                (),
            >(node@),
            out is Err ==> projected(self@, variant) == Err::<Seq<SlotView<Child, Leaf>>, ()>(()),
    {
        if self.variant == variant {
            Ok(self.node)
        } else {
            Err(())
        }
    }
}

/// A node that is wrapped as its variant and unwrapped at once comes back
/// unchanged, and unwrapping it as any other variant fails with the unit
/// value.
pub proof fn lemma_inject_then_project<Child, Leaf>(
    variant: usize,
    other: usize,
    node: Seq<SlotView<Child, Leaf>>,
)
    ensures
        projected(injected(variant, node), variant) == Ok::<Seq<SlotView<Child, Leaf>>, ()>(node),
        other != variant ==> projected(injected(variant, node), other) == Err::<
            Seq<SlotView<Child, Leaf>>,
            (),
        >(()),
{
}

/// Mapping with a function that returns what it is given returns the node
/// that was mapped: as many fields, each equal to the one it came from.
pub proof fn lemma_map_identity<Child, Leaf, F: Fn(Child) -> Child>(
    f: F,
    node: Seq<SlotView<Child, Leaf>>,
    out: Seq<SlotView<Child, Leaf>>,
)
    requires
        forall|child: Child, image: Child| #[trigger]
            call_ensures(f, (child,), image) ==> image == child,
        maps_to(f, node, out),
    ensures
        out == node,
{
    assert forall|i: int| 0 <= i < node.len() implies out[i] == node[i] by {
        assert(slot_maps_to(f, node[i], out[i]));
        if let SlotView::Nested(children) = node[i] {
            assert(out[i]->Nested_0 =~= children);
        }
    }
    assert(out =~= node);
}

/// Mapping under a borrow with a function that returns the reference that it
/// is given returns, field by field, references to what the node holds.
pub proof fn lemma_borrowed_map_identity<'a, Child, Leaf, F: Fn(&'a Child) -> &'a Child>(
    f: F,
    slot: &'a SlotView<Child, Leaf>,
    out: SlotView<&'a Child, &'a Leaf>,
)
    requires
        forall|child: &'a Child, image: &'a Child| #[trigger]
            call_ensures(f, (child,), image) ==> image == child,
        slot_borrows_to(f, slot, out),
    ensures
        out == slot_borrowed(slot),
{
    if let SlotView::Nested(children) = slot {
        assert(out->Nested_0 =~= Seq::new(children.len(), |j: int| &children[j]));
    }
}

/// A map keeps the kind of every field, and so a mapped value of a node
/// type is a value of that node type again.
pub proof fn lemma_map_keeps_kinds<Child, Leaf, O, F: Fn(Child) -> O>(
    f: F,
    value: Seq<SlotView<Child, Leaf>>,
    out: Seq<SlotView<O, Leaf>>,
    node: NodeView,
)
    requires
        maps_to(f, value, out),
        fits(value, node),
    ensures
        fits(out, node),
{
    assert forall|i: int| 0 <= i < out.len() implies slot_kind(#[trigger] out[i])
        == node.fields.fields[i].ty.kind(CHILD@) by {
        assert(slot_maps_to(f, value[i], out[i]));
        assert(slot_kind(value[i]) == node.fields.fields[i].ty.kind(CHILD@));
    }
}

/// The children of a node are as many as its fields hold, field by field:
/// one for a field that is the recursive position, none for a leaf.
pub proof fn lemma_children_grow_by_field<Child, Leaf>(
    slots: Seq<SlotView<Child, Leaf>>,
    upto: int,
)
    requires
        0 < upto <= slots.len(),
    ensures
        children_upto(slots, upto) == children_upto(slots, upto - 1) + slot_children(
            slots[upto - 1],
        ),
        slots[upto - 1] is Child ==> children_upto(slots, upto).len() == children_upto(
            slots,
            upto - 1,
        ).len() + 1,
        slots[upto - 1] is Leaf ==> children_upto(slots, upto) =~= children_upto(slots, upto - 1),
{
}

/// Where the first field of a node is a child that failed, sequencing gives
/// that failure, whatever the later fields hold.
pub proof fn lemma_first_failure_wins<Child, Leaf, E>(
    slots: Seq<SlotView<Result<Child, E>, Leaf>>,
    error: E,
)
    requires
        slots.len() > 0,
        slots[0] == SlotView::<Result<Child, E>, Leaf>::Child(Err(error)),
    ensures
        sequenced(slots) == Err::<Seq<SlotView<Child, Leaf>>, E>(error),
{
    assert(sequenced_upto(slots, 0) == Ok::<Seq<SlotView<Child, Leaf>>, E>(Seq::empty()));
    assert(sequenced_upto(slots, 1) == Err::<Seq<SlotView<Child, Leaf>>, E>(error));
    lemma_slot_failure_stays(slots, 1, slots.len() as int);
}

/// Where every field before the one at `at` holds no failure and that field
/// is a child that failed, sequencing gives its failure, whatever the later
/// fields hold.
pub proof fn lemma_earliest_failure_wins<Child, Leaf, E>(
    slots: Seq<SlotView<Result<Child, E>, Leaf>>,
    at: int,
    error: E,
)
    requires
        0 <= at < slots.len(),
        sequenced_upto(slots, at) is Ok,
        slots[at] == SlotView::<Result<Child, E>, Leaf>::Child(Err(error)),
    ensures
        sequenced(slots) == Err::<Seq<SlotView<Child, Leaf>>, E>(error),
{
    assert(sequenced_upto(slots, at + 1) == Err::<Seq<SlotView<Child, Leaf>>, E>(error));
    lemma_slot_failure_stays(slots, at + 1, slots.len() as int);
}

} // verus!

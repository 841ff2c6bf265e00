//! A small tree of arithmetic, compiled by hand: the node types, the sum
//! type and the operations that the compiler derives for a schema with the
//! variants `Plus`, `Times` and `Just`, and a tree that enters the recursion.

use vstd::prelude::*;
use vstd::std_specs::convert::{FromSpecImpl, TryFromSpecImpl};

verus! {

/// The sum of two children.
#[derive(Debug, Clone, PartialEq, Eq)]
pub struct Plus<Child> {
    pub left: Child,
    pub right: Child,
}

/// The product of two children.
#[derive(Debug, Clone, PartialEq, Eq)]
pub struct Times<Child> {
    pub left: Child,
    pub right: Child,
}

/// A number.
#[derive(Debug, Clone, PartialEq, Eq)]
pub struct Just(pub i32);

/// One level of an arithmetic tree with children of type `Child`.
#[derive(Debug, Clone, PartialEq, Eq)]
pub enum Arithmetic<Child> {
    Plus(Plus<Child>),
    Times(Times<Child>),
    Just(Just),
}

impl<Child> From<Plus<Child>> for Arithmetic<Child> {
    /// Wraps the node as its variant. This always succeeds.
    fn from(variant: Plus<Child>) -> (sum: Self)
        ensures
            sum == Arithmetic::Plus(variant),
    {
        Self::Plus(variant)
    }
}

impl<Child> FromSpecImpl<Plus<Child>> for Arithmetic<Child> {
    open spec fn obeys_from_spec() -> bool {
        true
    }

    open spec fn from_spec(variant: Plus<Child>) -> Self {
        Arithmetic::Plus(variant)
    }
}

impl<Child> TryFrom<Arithmetic<Child>> for Plus<Child> {
    type Error = ();

    /// Unwraps the node where the `Plus` variant is active, and fails
    /// with the unit value where another is.
    fn try_from(sum: Arithmetic<Child>) -> (node: Result<Self, ()>)
        ensures
            node == sum.as_plus(),
    {
        match sum {
            Arithmetic::Plus(variant) => Ok(variant),
            _ => Err(()),
        }
    }
}

impl<Child> TryFromSpecImpl<Arithmetic<Child>> for Plus<Child> {
    open spec fn obeys_try_from_spec() -> bool {
        true
    }

    open spec fn try_from_spec(sum: Arithmetic<Child>) -> Result<Self, ()> {
        sum.as_plus()
    }
}

impl<Child> From<Times<Child>> for Arithmetic<Child> {
    /// Wraps the node as its variant. This always succeeds.
    fn from(variant: Times<Child>) -> (sum: Self)
        ensures
            sum == Arithmetic::Times(variant),
    {
        Self::Times(variant)
    }
}

impl<Child> FromSpecImpl<Times<Child>> for Arithmetic<Child> {
    open spec fn obeys_from_spec() -> bool {
        true
    }

    open spec fn from_spec(variant: Times<Child>) -> Self {
        Arithmetic::Times(variant)
    }
}

impl<Child> TryFrom<Arithmetic<Child>> for Times<Child> {
    type Error = ();

    /// Unwraps the node where the `Times` variant is active, and fails
    /// with the unit value where another is.
    fn try_from(sum: Arithmetic<Child>) -> (node: Result<Self, ()>)
        ensures
            node == sum.as_times(),
    {
        match sum {
            Arithmetic::Times(variant) => Ok(variant),
            _ => Err(()),
        }
    }
}

impl<Child> TryFromSpecImpl<Arithmetic<Child>> for Times<Child> {
    open spec fn obeys_try_from_spec() -> bool {
        true
    }

    open spec fn try_from_spec(sum: Arithmetic<Child>) -> Result<Self, ()> {
        sum.as_times()
    }
}

impl<Child> From<Just> for Arithmetic<Child> {
    /// Wraps the node as its variant. This always succeeds.
    fn from(variant: Just) -> (sum: Self)
        ensures
            sum == Arithmetic::<Child>::Just(variant),
    {
        Self::Just(variant)
    }
}

impl<Child> FromSpecImpl<Just> for Arithmetic<Child> {
    open spec fn obeys_from_spec() -> bool {
        true
    }

    open spec fn from_spec(variant: Just) -> Self {
        Arithmetic::Just(variant)
    }
}

impl<Child> TryFrom<Arithmetic<Child>> for Just {
    type Error = ();

    /// Unwraps the node where the `Just` variant is active, and fails
    /// with the unit value where another is.
    fn try_from(sum: Arithmetic<Child>) -> (node: Result<Self, ()>)
        ensures
            node == sum.as_just(),
    {
        match sum {
            Arithmetic::Just(variant) => Ok(variant),
            _ => Err(()),
        }
    }
}

impl<Child> TryFromSpecImpl<Arithmetic<Child>> for Just {
    open spec fn obeys_try_from_spec() -> bool {
        true
    }

    open spec fn try_from_spec(sum: Arithmetic<Child>) -> Result<Self, ()> {
        sum.as_just()
    }
}

impl<Child> Arithmetic<Child> {
    /// The node inside, where the `Plus` variant is active.
    pub open spec fn as_plus(self) -> Result<Plus<Child>, ()> {
        match self {
            Arithmetic::Plus(variant) => Ok(variant),
            _ => Err(()),
        }
    }

    /// The node inside, where the `Times` variant is active.
    pub open spec fn as_times(self) -> Result<Times<Child>, ()> {
        match self {
            Arithmetic::Times(variant) => Ok(variant),
            _ => Err(()),
        }
    }

    /// The node inside, where the `Just` variant is active.
    pub open spec fn as_just(self) -> Result<Just, ()> {
        match self {
            Arithmetic::Just(variant) => Ok(variant),
            _ => Err(()),
        }
    }
}

/// A node that is wrapped as its variant and unwrapped at once comes back
/// unchanged, and unwrapping it as any other node type fails with the unit
/// value.
pub proof fn lemma_inject_then_project<Child>(plus: Plus<Child>, times: Times<Child>, just: Just)
    ensures
        Arithmetic::Plus(plus).as_plus() == Ok::<Plus<Child>, ()>(plus),
        Arithmetic::Plus(plus).as_times() == Err::<Times<Child>, ()>(()),
        Arithmetic::Plus(plus).as_just() == Err::<Just, ()>(()),
        Arithmetic::Times(times).as_times() == Ok::<Times<Child>, ()>(times),
        Arithmetic::Times(times).as_plus() == Err::<Plus<Child>, ()>(()),
        Arithmetic::Times(times).as_just() == Err::<Just, ()>(()),
        Arithmetic::<Child>::Just(just).as_just() == Ok::<Just, ()>(just),
        Arithmetic::<Child>::Just(just).as_plus() == Err::<Plus<Child>, ()>(()),
        Arithmetic::<Child>::Just(just).as_times() == Err::<Times<Child>, ()>(()),
{
}

impl<Child> Plus<Child> {
    /// Applies `f` to each child under a borrow.
    pub fn map<'a, O, F>(&'a self, f: &F) -> (out: Plus<O>) where F: Fn(&'a Child) -> O
        requires
            call_requires(*f, (&self.left,)),
            call_requires(*f, (&self.right,)),
        ensures
            call_ensures(*f, (&self.left,), out.left),
            call_ensures(*f, (&self.right,), out.right),
    {
        Plus { left: f(&self.left), right: f(&self.right) }
    }

    /// Applies `f` to each child, left before right, and consumes the node.
    pub fn map_owned<O, F>(self, f: &F) -> (out: Plus<O>) where F: Fn(Child) -> O
        requires
            call_requires(*f, (self.left,)),
            call_requires(*f, (self.right,)),
        ensures
            call_ensures(*f, (self.left,), out.left),
            call_ensures(*f, (self.right,), out.right),
    {
        Plus { left: f(self.left), right: f(self.right) }
    }
}

impl<Child, E> Plus<Result<Child, E>> {
    /// What sequencing the node gives: the failure of the first child that
    /// failed, left before right, or the node of what the children hold.
    pub open spec fn sequenced(self) -> Result<Plus<Child>, E> {
        match self.left {
            Err(error) => Err(error),
            Ok(left) => match self.right {
                Err(error) => Err(error),
                Ok(right) => Ok(Plus { left, right }),
            },
        }
    }

    /// Turns a node of results into the result of a node.
    pub fn into_result(self) -> (out: Result<Plus<Child>, E>)
        ensures
            out == self.sequenced(),
    {
        Ok(Plus { left: self.left?, right: self.right? })
    }
}

impl<Child> Plus<Option<Child>> {
    /// What sequencing the node gives: nothing where a child is absent, or
    /// the node of what the children hold.
    pub open spec fn present(self) -> Option<Plus<Child>> {
        match self.left {
            None => None,
            Some(left) => match self.right {
                None => None,
                Some(right) => Some(Plus { left, right }),
            },
        }
    }

    /// Turns a node of options into the option of a node.
    pub fn into_option(self) -> (out: Option<Plus<Child>>)
        ensures
            out == self.present(),
    {
        Some(Plus { left: self.left?, right: self.right? })
    }
}

impl<Child> Times<Child> {
    /// Applies `f` to each child under a borrow.
    pub fn map<'a, O, F>(&'a self, f: &F) -> (out: Times<O>) where F: Fn(&'a Child) -> O
        requires
            call_requires(*f, (&self.left,)),
            call_requires(*f, (&self.right,)),
        ensures
            call_ensures(*f, (&self.left,), out.left),
            call_ensures(*f, (&self.right,), out.right),
    {
        Times { left: f(&self.left), right: f(&self.right) }
    }

    /// Applies `f` to each child, left before right, and consumes the node.
    pub fn map_owned<O, F>(self, f: &F) -> (out: Times<O>) where F: Fn(Child) -> O
        requires
            call_requires(*f, (self.left,)),
            call_requires(*f, (self.right,)),
        ensures
            call_ensures(*f, (self.left,), out.left),
            call_ensures(*f, (self.right,), out.right),
    {
        Times { left: f(self.left), right: f(self.right) }
    }
}

impl<Child, E> Times<Result<Child, E>> {
    /// What sequencing the node gives: the failure of the first child that
    /// failed, left before right, or the node of what the children hold.
    pub open spec fn sequenced(self) -> Result<Times<Child>, E> {
        match self.left {
            Err(error) => Err(error),
            Ok(left) => match self.right {
                Err(error) => Err(error),
                Ok(right) => Ok(Times { left, right }),
            },
        }
    }

    /// Turns a node of results into the result of a node.
    pub fn into_result(self) -> (out: Result<Times<Child>, E>)
        ensures
            out == self.sequenced(),
    {
        Ok(Times { left: self.left?, right: self.right? })
    }
}

impl<Child> Times<Option<Child>> {
    /// What sequencing the node gives: nothing where a child is absent, or
    /// the node of what the children hold.
    pub open spec fn present(self) -> Option<Times<Child>> {
        match self.left {
            None => None,
            Some(left) => match self.right {
                None => None,
                Some(right) => Some(Times { left, right }),
            },
        }
    }

    /// Turns a node of options into the option of a node.
    pub fn into_option(self) -> (out: Option<Times<Child>>)
        ensures
            out == self.present(),
    {
        Some(Times { left: self.left?, right: self.right? })
    }
}

impl Just {
    /// Copies the number: a leaf has no child to hand to `f`.
    pub fn map<'a, Child: 'a, O, F>(&'a self, f: &F) -> (out: Just) where F: Fn(&'a Child) -> O
        ensures
            out == *self,
    {
        Just(self.0.clone())
    }

    /// Copies the number: a leaf has no child to hand to `f`.
    pub fn map_owned<Child, O, F>(self, f: &F) -> (out: Just) where F: Fn(Child) -> O
        ensures
            out == self,
    {
        Just(self.0.clone())
    }

    /// A leaf has no child that could have failed.
    pub fn into_result<E>(self) -> (out: Result<Just, E>)
        ensures
            out == Ok::<Just, E>(self),
    {
        Ok(Just(self.0))
    }

    /// A leaf has no child that could be absent.
    pub fn into_option(self) -> (out: Option<Just>)
        ensures
            out == Some(self),
    {
        Some(Just(self.0))
    }
}

impl<Child> Arithmetic<Child> {
    /// The immediate children, in the order in which the fields are
    /// declared.
    pub open spec fn children(self) -> Seq<Child> {
        match self {
            Arithmetic::Plus(node) => seq![node.left, node.right],
            Arithmetic::Times(node) => seq![node.left, node.right],
            Arithmetic::Just(_) => Seq::empty(),
        }
    }

    /// The node of the same variant and the same leaves with `children` in
    /// place of the children.
    pub open spec fn with_children<O>(self, children: Seq<O>) -> Arithmetic<O> {
        match self {
            Arithmetic::Plus(_) => Arithmetic::Plus(Plus { left: children[0], right: children[1] }),
            Arithmetic::Times(_) => Arithmetic::Times(
                Times { left: children[0], right: children[1] },
            ),
            Arithmetic::Just(node) => Arithmetic::Just(node),
        }
    }

    /// The node with a reference to each child in place of the child.
    pub open spec fn borrowed(&self) -> Arithmetic<&Child> {
        match self {
            Arithmetic::Plus(node) => Arithmetic::Plus(
                Plus { left: &node.left, right: &node.right },
            ),
            Arithmetic::Times(node) => Arithmetic::Times(
                Times { left: &node.left, right: &node.right },
            ),
            Arithmetic::Just(node) => Arithmetic::Just(*node),
        }
    }

    /// Whether `f` may be called on a reference to every child.
    pub open spec fn map_requires<'a, O, F: Fn(&'a Child) -> O>(&'a self, f: F) -> bool {
        forall|i: int|
            0 <= i < self.children().len() ==> call_requires(f, (&#[trigger] self.children()[i],))
    }

    /// Whether `out` is what a borrowed map by `f` may give: the same
    /// variant with the same leaves, and for each child a value that `f` may
    /// return for a reference to it.
    pub open spec fn map_ensures<'a, O, F: Fn(&'a Child) -> O>(
        &'a self,
        f: F,
        out: Arithmetic<O>,
    ) -> bool {
        &&& out == self.with_children(out.children())
        &&& out.children().len() == self.children().len()
        &&& forall|i: int|
            0 <= i < self.children().len() ==> call_ensures(
                f,
                (&#[trigger] self.children()[i],),
                out.children()[i],
            )
    }

    /// Whether `f` may be called on every child.
    pub open spec fn map_owned_requires<O, F: Fn(Child) -> O>(self, f: F) -> bool {
        forall|i: int|
            0 <= i < self.children().len() ==> call_requires(f, (#[trigger] self.children()[i],))
    }

    /// Whether `out` is what an owned map by `f` may give: the same variant
    /// with the same leaves, and for each child a value that `f` may return
    /// for it.
    pub open spec fn map_owned_ensures<O, F: Fn(Child) -> O>(self, f: F, out: Arithmetic<O>)
        -> bool {
        &&& out == self.with_children(out.children())
        &&& out.children().len() == self.children().len()
        &&& forall|i: int|
            0 <= i < self.children().len() ==> call_ensures(
                f,
                (#[trigger] self.children()[i],),
                out.children()[i],
            )
    }

    /// Applies `f` to a reference to each child, in field order, and keeps
    /// everything else. The node itself is left as it was.
    pub fn map<'a, O, F>(&'a self, f: &F) -> (out: Arithmetic<O>) where F: Fn(&'a Child) -> O
        requires
            self.map_requires(*f),
        ensures
            self.map_ensures(*f, out),
    {
        match self {
            Self::Plus(variant) => {
                assert(self.children()[0] == variant.left);
                assert(self.children()[1] == variant.right);
                let out: Arithmetic<O> = variant.map(f).into();
                out
            },
            Self::Times(variant) => {
                assert(self.children()[0] == variant.left);
                assert(self.children()[1] == variant.right);
                let out: Arithmetic<O> = variant.map(f).into();
                out
            },
            Self::Just(variant) => {
                let out: Arithmetic<O> = variant.map(f).into();
                out
            },
        }
    }

    /// Applies `f` to each child, in field order, and keeps everything
    /// else. The node is consumed.
    pub fn map_owned<O, F>(self, f: &F) -> (out: Arithmetic<O>) where F: Fn(Child) -> O
        requires
            self.map_owned_requires(*f),
        ensures
            self.map_owned_ensures(*f, out),
    {
        match self {
            Self::Plus(variant) => {
                assert(self.children()[0] == variant.left);
                assert(self.children()[1] == variant.right);
                let out: Arithmetic<O> = variant.map_owned(f).into();
                out
            },
            Self::Times(variant) => {
                assert(self.children()[0] == variant.left);
                assert(self.children()[1] == variant.right);
                let out: Arithmetic<O> = variant.map_owned(f).into();
                out
            },
            Self::Just(variant) => {
                let out: Arithmetic<O> = variant.map_owned(f).into();
                out
            },
        }
    }

    /// The children themselves, in field order.
    pub fn into_children(self) -> (children: Vec<Child>)
        ensures
            children@ == self.children(),
    {
        let mut children: Vec<Child> = Vec::new();
        match self {
            Self::Plus(variant) => {
                children.push(variant.left);
                children.push(variant.right);
            },
            Self::Times(variant) => {
                children.push(variant.left);
                children.push(variant.right);
            },
            Self::Just(_) => {},
        }
        assert(children@ =~= self.children());
        children
    }
}

impl<Child, E> Arithmetic<Result<Child, E>> {
    /// What sequencing the node gives: the failure of the first child that
    /// failed, in field order, or the node of what the children hold.
    pub open spec fn sequenced(self) -> Result<Arithmetic<Child>, E> {
        match self {
            Arithmetic::Plus(node) => match node.sequenced() {
                Ok(node) => Ok(Arithmetic::Plus(node)),
                Err(error) => Err(error),
            },
            Arithmetic::Times(node) => match node.sequenced() {
                Ok(node) => Ok(Arithmetic::Times(node)),
                Err(error) => Err(error),
            },
            Arithmetic::Just(node) => Ok(Arithmetic::Just(node)),
        }
    }

    /// Turns a node of results into the result of a node.
    pub fn into_result(self) -> (out: Result<Arithmetic<Child>, E>)
        ensures
            out == self.sequenced(),
    {
        Ok(
            match self {
                Self::Plus(variant) => variant.into_result()?.into(),
                Self::Times(variant) => variant.into_result()?.into(),
                Self::Just(variant) => variant.into_result::<E>()?.into(),
            },
        )
    }
}

impl<Child> Arithmetic<Option<Child>> {
    /// What sequencing the node gives: nothing where a child is absent, or
    /// the node of what the children hold.
    pub open spec fn present(self) -> Option<Arithmetic<Child>> {
        match self {
            Arithmetic::Plus(node) => match node.present() {
                Some(node) => Some(Arithmetic::Plus(node)),
                None => None,
            },
            Arithmetic::Times(node) => match node.present() {
                Some(node) => Some(Arithmetic::Times(node)),
                None => None,
            },
            Arithmetic::Just(node) => Some(Arithmetic::Just(node)),
        }
    }

    /// Turns a node of options into the option of a node.
    pub fn into_option(self) -> (out: Option<Arithmetic<Child>>)
        ensures
            out == self.present(),
    {
        Some(
            match self {
                Self::Plus(variant) => variant.into_option()?.into(),
                Self::Times(variant) => variant.into_option()?.into(),
                Self::Just(variant) => variant.into_option()?.into(),
            },
        )
    }
}

/// A node stays what it is when its children are put in place of its
/// children.
pub proof fn lemma_with_own_children<Child>(node: Arithmetic<Child>)
    ensures
        node.with_children(node.children()) == node,
{
}

/// Mapping with a function that returns what it is given returns the node
/// that was mapped.
pub proof fn lemma_map_owned_identity<Child, F: Fn(Child) -> Child>(
    node: Arithmetic<Child>,
    f: F,
    out: Arithmetic<Child>,
)
    requires
        forall|child: Child, image: Child| #[trigger]
            call_ensures(f, (child,), image) ==> image == child,
        node.map_owned_ensures(f, out),
    ensures
        out == node,
{
    assert(out.children() =~= node.children());
}

/// Mapping under a borrow with a function that returns the reference that it
/// is given returns the node with a reference to each child: field by field
/// the node that was mapped.
pub proof fn lemma_map_identity<'a, Child, F: Fn(&'a Child) -> &'a Child>(
    node: &'a Arithmetic<Child>,
    f: F,
    out: Arithmetic<&'a Child>,
)
    requires
        forall|child: &'a Child, image: &'a Child| #[trigger]
            call_ensures(f, (child,), image) ==> image == child,
        node.map_ensures(f, out),
    ensures
        out == node.borrowed(),
{
    assert(out.children() =~= node.borrowed().children()) by {
        assert forall|i: int| 0 <= i < out.children().len() implies out.children()[i]
            == node.borrowed().children()[i] by {
            assert(call_ensures(f, (&node.children()[i],), out.children()[i]));
        }
    }
}

/// Where the first child of a node holds a failure, sequencing gives that
/// failure, whatever the second child holds.
pub proof fn lemma_first_failure_wins<Child, E>(first: E, second: Result<Child, E>)
    ensures
        (Plus { left: Err::<Child, E>(first), right: second }).sequenced() == Err::<
            Plus<Child>,
            E,
        >(first),
        (Times { left: Err::<Child, E>(first), right: second }).sequenced() == Err::<
            Times<Child>,
            E,
        >(first),
        Arithmetic::Plus(Plus { left: Err::<Child, E>(first), right: second }).sequenced() == Err::<
            Arithmetic<Child>,
            E,
        >(first),
        Arithmetic::Times(Times { left: Err::<Child, E>(first), right: second }).sequenced()
            == Err::<Arithmetic<Child>, E>(first),
{
}

/// Where the first child of a node is absent, sequencing gives nothing,
/// whatever the second child holds.
pub proof fn lemma_first_absence_wins<Child>(second: Option<Child>)
    ensures
        (Plus { left: None::<Child>, right: second }).present() == None::<Plus<Child>>,
        (Times { left: None::<Child>, right: second }).present() == None::<Times<Child>>,
        Arithmetic::Plus(Plus { left: None::<Child>, right: second }).present() == None::<
            Arithmetic<Child>,
        >,
        Arithmetic::Times(Times { left: None::<Child>, right: second }).present() == None::<
            Arithmetic<Child>,
        >,
{
}

/// The top level of an [`Expr`]. It is `Arithmetic` with `Expr` in the child
/// slot, written out: a recursive datatype needs a variant of its own that
/// does not recur, and a type parameter does not show one.
#[derive(Debug, PartialEq, Eq)]
pub enum ExprNode {
    Plus(Plus<Expr>),
    Times(Times<Expr>),
    Just(Just),
}

/// A tree of arithmetic: one level whose children are trees again.
#[derive(Debug, PartialEq, Eq)]
pub struct Expr(pub Box<ExprNode>);

/// The value of one level whose children have been computed.
pub open spec fn arithmetic_value(node: Arithmetic<i32>) -> int {
    match node {
        Arithmetic::Plus(Plus { left, right }) => left + right,
        Arithmetic::Times(Times { left, right }) => left * right,
        Arithmetic::Just(Just(v)) => v as int,
    }
}

/// Whether the value of one level fits the machine integer.
pub open spec fn arithmetic_fits(node: Arithmetic<i32>) -> bool {
    i32::MIN <= arithmetic_value(node) <= i32::MAX
}

/// Computes one level whose children have been computed: the sum for
/// `Plus`, the product for `Times`, the number itself for `Just`.
pub fn do_arithmetic(node: &Arithmetic<i32>) -> (value: i32)
    requires
        arithmetic_fits(*node),
    ensures
        value == arithmetic_value(*node),
{
    match node {
        Arithmetic::Plus(Plus { left, right }) => *left + *right,
        Arithmetic::Times(Times { left, right }) => *left * *right,
        Arithmetic::Just(Just(v)) => *v,
    }
}

/// The recursion-entry interface: what a type must offer to be a tree
/// whose levels are [`Arithmetic`].
///
/// An implementor says how one level of it unfolds, and that it is finite.
/// The folds and the list of children are derived from that for every
/// implementor: see [`ArithmeticFold`].
pub trait ArithmeticTree: Sized {
    /// The top level of the tree, with the subtrees as its children.
    spec fn unfolded(self) -> Arithmetic<Self>;

    /// A bound on how many levels the tree has.
    spec fn height(self) -> nat;

    /// Every immediate subtree has fewer levels than the tree: trees are
    /// finite.
    proof fn lemma_children_are_lower(self)
        ensures
            forall|i: int|
                0 <= i < self.unfolded().children().len() ==> (
                #[trigger] self.unfolded().children()[i]).height() < self.height(),
    ;

    /// The top level with a reference to each subtree: one level only.
    fn as_ref(&self) -> (node: Arithmetic<&Self>)
        ensures
            node == self.unfolded().borrowed(),
    ;

    /// The top level with the subtrees themselves as its children.
    fn into_inner(self) -> (node: Arithmetic<Self>)
        ensures
            node == self.unfolded(),
    ;
}

/// Both operands of a sum or of a product have fewer levels than the tree.
pub proof fn lemma_operands_are_lower<T: ArithmeticTree>(tree: T)
    ensures
        tree.unfolded() matches Arithmetic::Plus(node) ==> node.left.height() < tree.height()
            && node.right.height() < tree.height(),
        tree.unfolded() matches Arithmetic::Times(node) ==> node.left.height() < tree.height()
            && node.right.height() < tree.height(),
{
    tree.lemma_children_are_lower();
    if let Arithmetic::Plus(node) = tree.unfolded() {
        assert(tree.unfolded().children()[0] == node.left);
        assert(tree.unfolded().children()[1] == node.right);
    }
    if let Arithmetic::Times(node) = tree.unfolded() {
        assert(tree.unfolded().children()[0] == node.left);
        assert(tree.unfolded().children()[1] == node.right);
    }
}

/// Whether a fold by `f` may be run on `tree`: `f` may be called on every
/// level, given whatever the folds of its children may return.
pub open spec fn fold_requires<T: ArithmeticTree, O, F: Fn(Arithmetic<O>) -> O>(
    tree: T,
    f: &F,
) -> bool
    decreases tree.height(),
{
    proof {
        lemma_operands_are_lower(tree);
    }
    match tree.unfolded() {
        Arithmetic::Plus(node) => {
            &&& fold_requires(node.left, f)
            &&& fold_requires(node.right, f)
            &&& forall|left: O, right: O|
                fold_ensures(node.left, f, left) && fold_ensures(node.right, f, right)
                    ==> #[trigger] call_requires(*f, (Arithmetic::Plus(Plus { left, right }),))
        },
        Arithmetic::Times(node) => {
            &&& fold_requires(node.left, f)
            &&& fold_requires(node.right, f)
            &&& forall|left: O, right: O|
                fold_ensures(node.left, f, left) && fold_ensures(node.right, f, right)
                    ==> #[trigger] call_requires(*f, (Arithmetic::Times(Times { left, right }),))
        },
        Arithmetic::Just(node) => call_requires(*f, (Arithmetic::Just(node),)),
    }
}

/// Whether `out` is what a fold of `tree` by `f` may give: what `f` may
/// return for the top level once each child stands for what its own fold may
/// give.
pub open spec fn fold_ensures<T: ArithmeticTree, O, F: Fn(Arithmetic<O>) -> O>(
    tree: T,
    f: &F,
    out: O,
) -> bool
    decreases tree.height(),
{
    proof {
        lemma_operands_are_lower(tree);
    }
    match tree.unfolded() {
        Arithmetic::Plus(node) => exists|left: O, right: O|
            fold_ensures(node.left, f, left) && fold_ensures(node.right, f, right)
                && #[trigger] call_ensures(*f, (Arithmetic::Plus(Plus { left, right }),), out),
        Arithmetic::Times(node) => exists|left: O, right: O|
            fold_ensures(node.left, f, left) && fold_ensures(node.right, f, right)
                && #[trigger] call_ensures(*f, (Arithmetic::Times(Times { left, right }),), out),
        Arithmetic::Just(node) => call_ensures(*f, (Arithmetic::Just(node),), out),
    }
}

/// The fold of [`ArithmeticFold::fold`], as a function that may call itself.
fn fold_tree<T: ArithmeticTree, O, F>(tree: T, f: &F) -> (out: O) where F: Fn(Arithmetic<O>) -> O
    requires
        fold_requires(tree, f),
    ensures
        fold_ensures(tree, f, out),
    decreases tree.height(),
{
    proof {
        lemma_operands_are_lower(tree);
    }
    match tree.into_inner() {
        Arithmetic::Plus(node) => {
            let left = fold_tree(node.left, f);
            let right = fold_tree(node.right, f);
            f(Arithmetic::Plus(Plus { left, right }))
        },
        Arithmetic::Times(node) => {
            let left = fold_tree(node.left, f);
            let right = fold_tree(node.right, f);
            f(Arithmetic::Times(Times { left, right }))
        },
        Arithmetic::Just(node) => f(Arithmetic::Just(node)),
    }
}

/// Whether a failable fold by `f` may be run on `tree`: `f` may be called
/// on every level that is reached, given whatever the folds of its children
/// may return. A child is reached where every child before it may succeed.
pub open spec fn try_fold_requires<
    T: ArithmeticTree,
    O,
    E,
    F: Fn(Arithmetic<O>) -> Result<O, E>,
>(tree: T, f: &F) -> bool
    decreases tree.height(),
{
    proof {
        lemma_operands_are_lower(tree);
    }
    match tree.unfolded() {
        Arithmetic::Plus(node) => {
            &&& try_fold_requires(node.left, f)
            &&& forall|left: O| #[trigger]
                try_fold_ensures(node.left, f, Ok(left)) ==> try_fold_requires(node.right, f)
            &&& forall|left: O, right: O|
                try_fold_ensures(node.left, f, Ok(left)) && try_fold_ensures(
                    node.right,
                    f,
                    Ok(right),
                ) ==> #[trigger] call_requires(*f, (Arithmetic::Plus(Plus { left, right }),))
        },
        Arithmetic::Times(node) => {
            &&& try_fold_requires(node.left, f)
            &&& forall|left: O| #[trigger]
                try_fold_ensures(node.left, f, Ok(left)) ==> try_fold_requires(node.right, f)
            &&& forall|left: O, right: O|
                try_fold_ensures(node.left, f, Ok(left)) && try_fold_ensures(
                    node.right,
                    f,
                    Ok(right),
                ) ==> #[trigger] call_requires(*f, (Arithmetic::Times(Times { left, right }),))
        },
        Arithmetic::Just(node) => call_requires(*f, (Arithmetic::Just(node),)),
    }
}

/// Whether `out` is what a failable fold of `tree` by `f` may give. The
/// children are folded left before right, and a child is folded only where
/// every child before it succeeded. The level with the outcomes in place of
/// the children is then sequenced: a failure is the outcome of the fold, and
/// to a level of successes `f` is applied.
pub open spec fn try_fold_ensures<
    T: ArithmeticTree,
    O,
    E,
    F: Fn(Arithmetic<O>) -> Result<O, E>,
>(tree: T, f: &F, out: Result<O, E>) -> bool
    decreases tree.height(),
{
    proof {
        lemma_operands_are_lower(tree);
    }
    match tree.unfolded() {
        Arithmetic::Plus(node) => exists|left: Result<O, E>, right: Result<O, E>|
            #![trigger (Plus { left, right }).sequenced()]
            {
                &&& try_fold_ensures(node.left, f, left)
                &&& left is Ok ==> try_fold_ensures(node.right, f, right)
                &&& match (Plus { left, right }).sequenced() {
                    Ok(level) => call_ensures(*f, (Arithmetic::Plus(level),), out),
                    Err(error) => out == Err::<O, E>(error),
                }
            },
        Arithmetic::Times(node) => exists|left: Result<O, E>, right: Result<O, E>|
            #![trigger (Times { left, right }).sequenced()]
            {
                &&& try_fold_ensures(node.left, f, left)
                &&& left is Ok ==> try_fold_ensures(node.right, f, right)
                &&& match (Times { left, right }).sequenced() {
                    Ok(level) => call_ensures(*f, (Arithmetic::Times(level),), out),
                    Err(error) => out == Err::<O, E>(error),
                }
            },
        Arithmetic::Just(node) => call_ensures(*f, (Arithmetic::Just(node),), out),
    }
}

/// The fold of [`ArithmeticFold::try_fold`], as a function that may call
/// itself.
fn try_fold_tree<T: ArithmeticTree, O, E, F>(tree: T, f: &F) -> (out: Result<O, E>) where
    F: Fn(Arithmetic<O>) -> Result<O, E>,

    requires
        try_fold_requires(tree, f),
    ensures
        try_fold_ensures(tree, f, out),
    decreases tree.height(),
{
    proof {
        lemma_operands_are_lower(tree);
    }
    match tree.into_inner() {
        Arithmetic::Plus(node) => {
            let left = match try_fold_tree(node.left, f) {
                Ok(left) => left,
                Err(error) => {
                    assert((Plus { left: Err::<O, E>(error), right: Err::<O, E>(error) }).sequenced()
                        == Err::<Plus<O>, E>(error));
                    return Err(error);
                },
            };
            let right = match try_fold_tree(node.right, f) {
                Ok(right) => right,
                Err(error) => {
                    assert((Plus { left: Ok::<O, E>(left), right: Err::<O, E>(error) }).sequenced()
                        == Err::<Plus<O>, E>(error));
                    return Err(error);
                },
            };
            assert((Plus { left: Ok::<O, E>(left), right: Ok::<O, E>(right) }).sequenced() == Ok::<
                Plus<O>,
                E,
            >(Plus { left, right }));
            f(Arithmetic::Plus(Plus { left, right }))
        },
        Arithmetic::Times(node) => {
            let left = match try_fold_tree(node.left, f) {
                Ok(left) => left,
                Err(error) => {
                    assert((Times { left: Err::<O, E>(error), right: Err::<O, E>(error) }).sequenced()
                        == Err::<Times<O>, E>(error));
                    return Err(error);
                },
            };
            let right = match try_fold_tree(node.right, f) {
                Ok(right) => right,
                Err(error) => {
                    assert((Times { left: Ok::<O, E>(left), right: Err::<O, E>(error) }).sequenced()
                        == Err::<Times<O>, E>(error));
                    return Err(error);
                },
            };
            assert((Times { left: Ok::<O, E>(left), right: Ok::<O, E>(right) }).sequenced() == Ok::<
                Times<O>,
                E,
            >(Times { left, right }));
            f(Arithmetic::Times(Times { left, right }))
        },
        Arithmetic::Just(node) => f(Arithmetic::Just(node)),
    }
}

/// The value that a fold gives where the function is `step`: the
/// catamorphism of `step` over the tree.
pub open spec fn folded<T: ArithmeticTree, O>(tree: T, step: spec_fn(Arithmetic<O>) -> O) -> O
    decreases tree.height(),
{
    proof {
        lemma_operands_are_lower(tree);
    }
    match tree.unfolded() {
        Arithmetic::Plus(node) => step(
            Arithmetic::Plus(
                Plus { left: folded(node.left, step), right: folded(node.right, step) },
            ),
        ),
        Arithmetic::Times(node) => step(
            Arithmetic::Times(
                Times { left: folded(node.left, step), right: folded(node.right, step) },
            ),
        ),
        Arithmetic::Just(node) => step(Arithmetic::Just(node)),
    }
}

/// The outcome that a failable fold gives where the function is `step`:
/// the failure of the first level that fails, children before parent and
/// left before right, or what `step` makes of the top level.
pub open spec fn try_folded<T: ArithmeticTree, O, E>(
    tree: T,
    step: spec_fn(Arithmetic<O>) -> Result<O, E>,
) -> Result<O, E>
    decreases tree.height(),
{
    proof {
        lemma_operands_are_lower(tree);
    }
    match tree.unfolded() {
        Arithmetic::Plus(node) => match try_folded(node.left, step) {
            Err(error) => Err(error),
            Ok(left) => match try_folded(node.right, step) {
                Err(error) => Err(error),
                Ok(right) => step(Arithmetic::Plus(Plus { left, right })),
            },
        },
        Arithmetic::Times(node) => match try_folded(node.left, step) {
            Err(error) => Err(error),
            Ok(left) => match try_folded(node.right, step) {
                Err(error) => Err(error),
                Ok(right) => step(Arithmetic::Times(Times { left, right })),
            },
        },
        Arithmetic::Just(node) => step(Arithmetic::Just(node)),
    }
}

/// A function that may be called on every level may be folded over every
/// tree.
pub proof fn lemma_total_function_folds<T: ArithmeticTree, O, F: Fn(Arithmetic<O>) -> O>(
    tree: T,
    f: &F,
)
    requires
        forall|op: Arithmetic<O>| #[trigger] call_requires(*f, (op,)),
    ensures
        fold_requires(tree, f),
    decreases tree.height(),
{
    lemma_operands_are_lower(tree);
    match tree.unfolded() {
        Arithmetic::Plus(node) => {
            lemma_total_function_folds(node.left, f);
            lemma_total_function_folds(node.right, f);
        },
        Arithmetic::Times(node) => {
            lemma_total_function_folds(node.left, f);
            lemma_total_function_folds(node.right, f);
        },
        Arithmetic::Just(_) => {},
    }
}

/// A function that may be called on every level may be folded over every
/// tree, also where it may fail.
pub proof fn lemma_total_function_try_folds<
    T: ArithmeticTree,
    O,
    E,
    F: Fn(Arithmetic<O>) -> Result<O, E>,
>(tree: T, f: &F)
    requires
        forall|op: Arithmetic<O>| #[trigger] call_requires(*f, (op,)),
    ensures
        try_fold_requires(tree, f),
    decreases tree.height(),
{
    lemma_operands_are_lower(tree);
    match tree.unfolded() {
        Arithmetic::Plus(node) => {
            lemma_total_function_try_folds(node.left, f);
            lemma_total_function_try_folds(node.right, f);
        },
        Arithmetic::Times(node) => {
            lemma_total_function_try_folds(node.left, f);
            lemma_total_function_try_folds(node.right, f);
        },
        Arithmetic::Just(_) => {},
    }
}

/// A fold is determined by the tree where the function is determined by its
/// argument: where `f` returns `step` of what it is given, the fold returns
/// the catamorphism of `step`.
pub proof fn lemma_fold_is_determined<T: ArithmeticTree, O, F: Fn(Arithmetic<O>) -> O>(
    tree: T,
    f: &F,
    step: spec_fn(Arithmetic<O>) -> O,
    out: O,
)
    requires
        forall|op: Arithmetic<O>, value: O| #[trigger]
            call_ensures(*f, (op,), value) ==> value == step(op),
        fold_ensures(tree, f, out),
    ensures
        out == folded(tree, step),
    decreases tree.height(),
{
    lemma_operands_are_lower(tree);
    match tree.unfolded() {
        Arithmetic::Plus(node) => {
            let (left, right) = choose|left: O, right: O|
                fold_ensures(node.left, f, left) && fold_ensures(node.right, f, right)
                    && #[trigger] call_ensures(*f, (Arithmetic::Plus(Plus { left, right }),), out);
            lemma_fold_is_determined(node.left, f, step, left);
            lemma_fold_is_determined(node.right, f, step, right);
        },
        Arithmetic::Times(node) => {
            let (left, right) = choose|left: O, right: O|
                fold_ensures(node.left, f, left) && fold_ensures(node.right, f, right)
                    && #[trigger] call_ensures(*f, (Arithmetic::Times(Times { left, right }),), out);
            lemma_fold_is_determined(node.left, f, step, left);
            lemma_fold_is_determined(node.right, f, step, right);
        },
        Arithmetic::Just(_) => {},
    }
}

/// A failable fold is determined by the tree where the function is
/// determined by its argument. In particular the failure of an earlier child
/// is the outcome whatever a later child would give.
pub proof fn lemma_try_fold_is_determined<
    T: ArithmeticTree,
    O,
    E,
    F: Fn(Arithmetic<O>) -> Result<O, E>,
>(tree: T, f: &F, step: spec_fn(Arithmetic<O>) -> Result<O, E>, out: Result<O, E>)
    requires
        forall|op: Arithmetic<O>, outcome: Result<O, E>| #[trigger]
            call_ensures(*f, (op,), outcome) ==> outcome == step(op),
        try_fold_ensures(tree, f, out),
    ensures
        out == try_folded(tree, step),
    decreases tree.height(),
{
    lemma_operands_are_lower(tree);
    match tree.unfolded() {
        Arithmetic::Plus(node) => {
            let (left, right) = choose|left: Result<O, E>, right: Result<O, E>|
                #![trigger (Plus { left, right }).sequenced()]
                {
                    &&& try_fold_ensures(node.left, f, left)
                    &&& left is Ok ==> try_fold_ensures(node.right, f, right)
                    &&& match (Plus { left, right }).sequenced() {
                        Ok(level) => call_ensures(*f, (Arithmetic::Plus(level),), out),
                        Err(error) => out == Err::<O, E>(error),
                    }
                };
            lemma_try_fold_is_determined(node.left, f, step, left);
            if left is Ok {
                lemma_try_fold_is_determined(node.right, f, step, right);
            }
        },
        Arithmetic::Times(node) => {
            let (left, right) = choose|left: Result<O, E>, right: Result<O, E>|
                #![trigger (Times { left, right }).sequenced()]
                {
                    &&& try_fold_ensures(node.left, f, left)
                    &&& left is Ok ==> try_fold_ensures(node.right, f, right)
                    &&& match (Times { left, right }).sequenced() {
                        Ok(level) => call_ensures(*f, (Arithmetic::Times(level),), out),
                        Err(error) => out == Err::<O, E>(error),
                    }
                };
            lemma_try_fold_is_determined(node.left, f, step, left);
            if left is Ok {
                lemma_try_fold_is_determined(node.right, f, step, right);
            }
        },
        Arithmetic::Just(_) => {},
    }
}

/// What every [`ArithmeticTree`] has in return: the folds and the list of
/// children.
pub trait ArithmeticFold: ArithmeticTree {
    /// Reduces the tree to one value. The children of a level are folded
    /// first, left before right; then `f` is applied once to the level with
    /// the results in place of the children.
    fn fold<O, F>(self, f: &F) -> (out: O) where F: Fn(Arithmetic<O>) -> O
        requires
            fold_requires(self, f),
        ensures
            fold_ensures(self, f, out),
    {
        fold_tree(self, f)
    }

    /// Reduces the tree to one value where every step may fail. The
    /// children of a level are folded left before right. The first failure
    /// ends the fold at once: no sibling to the right is folded and `f` is
    /// applied to no level above. Where every child succeeds, `f` is applied
    /// once to the level with the results in place of the children.
    fn try_fold<O, E, F>(self, f: &F) -> (out: Result<O, E>) where
        F: Fn(Arithmetic<O>) -> Result<O, E>,

        requires
            try_fold_requires(self, f),
        ensures
            try_fold_ensures(self, f, out),
    {
        try_fold_tree(self, f)
    }

    /// References to the immediate subtrees, in field order. No subtree of
    /// a subtree is among them.
    fn iter_children(&self) -> (children: Vec<&Self>)
        ensures
            children@.len() == self.unfolded().children().len(),
            forall|i: int|
                0 <= i < children@.len() ==> *children@[i] == self.unfolded().children()[i],
    {
        self.as_ref().into_children()
    }
}

impl<T: ArithmeticTree> ArithmeticFold for T {}

impl Expr {
    /// How many levels the tree has.
    pub open spec fn depth(self) -> nat
        decreases self,
    {
        match *self.0 {
            ExprNode::Plus(node) => 1 + vstd::math::max(
                node.left.depth() as int,
                node.right.depth() as int,
            ) as nat,
            ExprNode::Times(node) => 1 + vstd::math::max(
                node.left.depth() as int,
                node.right.depth() as int,
            ) as nat,
            ExprNode::Just(_) => 1,
        }
    }

    /// The tree whose top level is `node`.
    pub fn new(node: Arithmetic<Expr>) -> (tree: Expr)
        ensures
            tree.unfolded() == node,
    {
        match node {
            Arithmetic::Plus(node) => Expr(Box::new(ExprNode::Plus(node))),
            Arithmetic::Times(node) => Expr(Box::new(ExprNode::Times(node))),
            Arithmetic::Just(node) => Expr(Box::new(ExprNode::Just(node))),
        }
    }
}

impl ArithmeticTree for Expr {
    open spec fn unfolded(self) -> Arithmetic<Expr> {
        match *self.0 {
            ExprNode::Plus(node) => Arithmetic::Plus(node),
            ExprNode::Times(node) => Arithmetic::Times(node),
            ExprNode::Just(node) => Arithmetic::Just(node),
        }
    }

    open spec fn height(self) -> nat {
        self.depth()
    }

    proof fn lemma_children_are_lower(self) {
    }

    fn as_ref(&self) -> (node: Arithmetic<&Self>) {
        match &*self.0 {
            ExprNode::Plus(node) => Arithmetic::Plus(
                Plus { left: &node.left, right: &node.right },
            ),
            ExprNode::Times(node) => Arithmetic::Times(
                Times { left: &node.left, right: &node.right },
            ),
            ExprNode::Just(node) => Arithmetic::Just(Just(node.0)),
        }
    }

    fn into_inner(self) -> (node: Arithmetic<Self>) {
        match *self.0 {
            ExprNode::Plus(node) => Arithmetic::Plus(node),
            ExprNode::Times(node) => Arithmetic::Times(node),
            ExprNode::Just(node) => Arithmetic::Just(node),
        }
    }
}

impl Expr {
    /// The number that the tree stands for.
    pub open spec fn value(self) -> int
        decreases self,
    {
        match *self.0 {
            ExprNode::Plus(node) => node.left.value() + node.right.value(),
            ExprNode::Times(node) => node.left.value() * node.right.value(),
            ExprNode::Just(node) => node.0 as int,
        }
    }

    /// Whether the value of the tree and of every subtree fits the machine
    /// integer.
    pub open spec fn computable(self) -> bool
        decreases self,
    {
        &&& i32::MIN <= self.value() <= i32::MAX
        &&& match *self.0 {
            ExprNode::Plus(node) => node.left.computable() && node.right.computable(),
            ExprNode::Times(node) => node.left.computable() && node.right.computable(),
            ExprNode::Just(_) => true,
        }
    }

    /// Computes the number that the tree stands for, by a fold with
    /// [`do_arithmetic`].
    pub fn compute_value(self) -> (value: i32)
        requires
            self.computable(),
        ensures
            value == self.value(),
    {
        let step = |op: Arithmetic<i32>| -> (value: i32)
            requires
                arithmetic_fits(op),
            ensures
                value == arithmetic_value(op),
            { do_arithmetic(&op) };
        proof {
            lemma_fold_by_arithmetic(self, step);
        }
        self.fold(&step)
    }
}

/// A fold by a function that computes one level as [`do_arithmetic`] does
/// may be run on every tree whose values fit, and gives the value of the
/// tree.
pub proof fn lemma_fold_by_arithmetic<F: Fn(Arithmetic<i32>) -> i32>(tree: Expr, step: F)
    requires
        tree.computable(),
        forall|op: Arithmetic<i32>| arithmetic_fits(op) ==> #[trigger] call_requires(step, (op,)),
        forall|op: Arithmetic<i32>, value: i32| #[trigger]
            call_ensures(step, (op,), value) ==> value == arithmetic_value(op),
    ensures
        fold_requires(tree, &step),
        forall|out: i32| #[trigger] fold_ensures(tree, &step, out) ==> out == tree.value(),
    decreases tree,
{
    match *tree.0 {
        ExprNode::Plus(node) => {
            lemma_fold_by_arithmetic(node.left, step);
            lemma_fold_by_arithmetic(node.right, step);
            assert forall|left: i32, right: i32|
                fold_ensures(node.left, &step, left) && fold_ensures(
                    node.right,
                    &step,
                    right,
                ) implies #[trigger] call_requires(
                step,
                (Arithmetic::Plus(Plus { left, right }),),
            ) by {
                assert(arithmetic_fits(Arithmetic::Plus(Plus { left, right })));
            }
            assert forall|out: i32| #[trigger] fold_ensures(tree, &step, out) implies out
                == tree.value() by {
                let (left, right) = choose|left: i32, right: i32|
                    fold_ensures(node.left, &step, left) && fold_ensures(node.right, &step, right)
                        && #[trigger] call_ensures(
                        step,
                        (Arithmetic::Plus(Plus { left, right }),),
                        out,
                    );
                assert(left == node.left.value());
                assert(right == node.right.value());
            }
        },
        ExprNode::Times(node) => {
            lemma_fold_by_arithmetic(node.left, step);
            lemma_fold_by_arithmetic(node.right, step);
            assert forall|left: i32, right: i32|
                fold_ensures(node.left, &step, left) && fold_ensures(
                    node.right,
                    &step,
                    right,
                ) implies #[trigger] call_requires(
                step,
                (Arithmetic::Times(Times { left, right }),),
            ) by {
                assert(arithmetic_fits(Arithmetic::Times(Times { left, right })));
            }
            assert forall|out: i32| #[trigger] fold_ensures(tree, &step, out) implies out
                == tree.value() by {
                let (left, right) = choose|left: i32, right: i32|
                    fold_ensures(node.left, &step, left) && fold_ensures(node.right, &step, right)
                        && #[trigger] call_ensures(
                        step,
                        (Arithmetic::Times(Times { left, right }),),
                        out,
                    );
                assert(left == node.left.value());
                assert(right == node.right.value());
            }
        },
        ExprNode::Just(node) => {
            assert(arithmetic_fits(Arithmetic::Just(node)));
        },
    }
}

} // verus!

//! Type expressions: the nested shapes that field types are written in.

use crate::text::{clone_names, join, joined, terminate, terminated, weave, woven};
use vstd::prelude::*;

verus! {

/// What stands at the top of a type expression.
#[derive(Debug, PartialEq, Eq)]
pub enum TypeHead {
    /// A path such as `std::vec::Vec`; the arguments of the expression are the
    /// generic arguments of its last segment.
    Path(Vec<String>),
    /// A tuple of the arguments.
    Tuple,
    /// Pieces of fixed text with the arguments between them: piece, argument,
    /// piece, argument. `&mut T` has the pieces `&mut ` and nothing, `[T; 4]`
    /// has `[` and `; 4]`, `fn(A) -> B` has `fn(`, `) -> ` and nothing. The
    /// pieces hold keywords and punctuation; every identifier of the type
    /// stands in an argument.
    Syntax(Vec<String>),
    /// An identifier that is no path segment: the name of a lifetime, of an
    /// associated type in a binding, of an argument. Arguments, if there are
    /// any, follow it in angle brackets.
    Name(String),
    /// Source text that is carried along and never looked into, for what
    /// has no parts: the tokens of a macro call. Arguments, if there are
    /// any, follow it in angle brackets.
    Opaque(String),
}

/// A type expression: a head applied to nested type expressions.
#[derive(Debug, PartialEq, Eq)]
pub struct TypeExpr {
    pub head: TypeHead,
    pub args: Vec<TypeExpr>,
}

/// The mathematical value of a [`TypeHead`].
pub enum HeadView {
    Path(Seq<Seq<char>>),
    Tuple,
    Syntax(Seq<Seq<char>>),
    Name(Seq<char>),
    Opaque(Seq<char>),
}

/// The mathematical value of a [`TypeExpr`].
pub struct TypeView {
    pub head: HeadView,
    pub args: Seq<TypeView>,
}

/// How a field's type relates to the recursive position.
#[derive(Clone, Copy, PartialEq, Eq, Structural, Debug)]
pub enum FieldKind {
    /// The type is the marker itself.
    Child,
    /// The marker occurs inside another generic type.
    Container,
    /// The marker does not occur.
    Leaf,
}

impl View for TypeHead {
    type V = HeadView;

    open spec fn view(&self) -> HeadView {
        match self {
            TypeHead::Path(segments) => HeadView::Path(segments.deep_view()),
            TypeHead::Tuple => HeadView::Tuple,
            TypeHead::Syntax(pieces) => HeadView::Syntax(pieces.deep_view()),
            TypeHead::Name(name) => HeadView::Name(name@),
            TypeHead::Opaque(text) => HeadView::Opaque(text@),
        }
    }
}

impl TypeExpr {
    /// The mathematical value of the expression.
    pub open spec fn model(self) -> TypeView
        decreases self,
    {
        TypeView {
            head: self.head@,
            args: Seq::new(
                self.args@.len(),
                |i: int|
                    if 0 <= i < self.args@.len() {
                        self.args@[i].model()
                    } else {
                        arbitrary()
                    },
            ),
        }
    }
}

impl View for TypeExpr {
    type V = TypeView;

    open spec fn view(&self) -> TypeView {
        self.model()
    }
}

/// `name` with `from` exchanged for `to`.
pub open spec fn renamed_ident(name: Seq<char>, from: Seq<char>, to: Seq<char>) -> Seq<char> {
    if name == from {
        to
    } else {
        name
    }
}

/// `names` with every `from` exchanged for `to`.
pub open spec fn renamed_idents(names: Seq<Seq<char>>, from: Seq<char>, to: Seq<char>) -> Seq<
    Seq<char>,
> {
    Seq::new(names.len(), |i: int| renamed_ident(names[i], from, to))
}

/// `items` between angle brackets, or nothing where there are none.
pub open spec fn angled(items: Seq<Seq<char>>) -> Seq<char> {
    if items.len() == 0 {
        Seq::empty()
    } else {
        "<"@ + joined(items, ", "@) + ">"@
    }
}

impl HeadView {
    /// Whether `name` is one of the head's path segments.
    pub open spec fn refers_to(self, name: Seq<char>) -> bool {
        self matches HeadView::Path(segments) && segments.contains(name)
    }

    /// Whether `name` is an identifier of the head: one of its path
    /// segments, or the name that it is.
    pub open spec fn mentions(self, name: Seq<char>) -> bool {
        self.refers_to(name) || self == HeadView::Name(name)
    }

    /// The head with every identifier `from` exchanged for `to`.
    pub open spec fn renamed(self, from: Seq<char>, to: Seq<char>) -> HeadView {
        match self {
            HeadView::Path(segments) => HeadView::Path(renamed_idents(segments, from, to)),
            HeadView::Name(name) => HeadView::Name(renamed_ident(name, from, to)),
            other => other,
        }
    }
}

impl TypeView {
    /// Whether `name` occurs as an identifier anywhere in the expression, at
    /// any depth: as a path segment or as a name that is none.
    pub open spec fn mentions(self, name: Seq<char>) -> bool
        decreases self,
    {
        ||| self.head.mentions(name)
        ||| exists|i: int| 0 <= i < self.args.len() && (#[trigger] self.args[i]).mentions(name)
    }

    /// Whether `name` occurs as a path segment anywhere in the expression,
    /// at any depth.
    pub open spec fn refers_to(self, name: Seq<char>) -> bool
        decreases self,
    {
        ||| self.head.refers_to(name)
        ||| exists|i: int| 0 <= i < self.args.len() && (#[trigger] self.args[i]).refers_to(name)
    }

    /// Whether the expression is the single identifier `name` and nothing else.
    pub open spec fn is_bare(self, name: Seq<char>) -> bool {
        self.head == HeadView::Path(seq![name]) && self.args.len() == 0
    }

    /// The expression with every identifier `from` exchanged for `to`, at
    /// any depth.
    pub open spec fn renamed(self, from: Seq<char>, to: Seq<char>) -> TypeView
        decreases self,
    {
        TypeView {
            head: self.head.renamed(from, to),
            args: Seq::new(
                self.args.len(),
                |i: int|
                    if 0 <= i < self.args.len() {
                        self.args[i].renamed(from, to)
                    } else {
                        arbitrary()
                    },
            ),
        }
    }

    /// The source text of each argument.
    pub open spec fn rendered_args(self) -> Seq<Seq<char>>
        decreases self, 0nat,
    {
        Seq::new(
            self.args.len(),
            |i: int|
                if 0 <= i < self.args.len() {
                    self.args[i].rendered()
                } else {
                    arbitrary()
                },
        )
    }

    /// The source text of the expression.
    pub open spec fn rendered(self) -> Seq<char>
        decreases self, 1nat,
    {
        match self.head {
            HeadView::Path(segments) => joined(segments, "::"@) + angled(self.rendered_args()),
            HeadView::Tuple => "("@ + terminated(self.rendered_args(), ", "@) + ")"@,
            HeadView::Syntax(pieces) => woven(pieces, self.rendered_args()),
            HeadView::Name(name) => name + angled(self.rendered_args()),
            HeadView::Opaque(text) => text + angled(self.rendered_args()),
        }
    }

    /// How a field of this type relates to the recursive position `marker`.
    pub open spec fn kind(self, marker: Seq<char>) -> FieldKind {
        if self.is_bare(marker) {
            FieldKind::Child
        } else if self.mentions(marker) {
            FieldKind::Container
        } else {
            FieldKind::Leaf
        }
    }
}

/// A name that occurs as a path segment occurs as an identifier.
pub proof fn lemma_reference_is_mention(ty: TypeView, name: Seq<char>)
    requires
        ty.refers_to(name),
    ensures
        ty.mentions(name),
    decreases ty,
{
    if !ty.head.refers_to(name) {
        let i = choose|i: int| 0 <= i < ty.args.len() && (#[trigger] ty.args[i]).refers_to(name);
        lemma_reference_is_mention(ty.args[i], name);
    }
}

/// What occurs in a list of names after a renaming: every name but `from`
/// that occurred before, and `to` where `from` occurred.
pub proof fn lemma_renamed_idents_contain(
    names: Seq<Seq<char>>,
    from: Seq<char>,
    to: Seq<char>,
    name: Seq<char>,
)
    ensures
        renamed_idents(names, from, to).contains(name) <==> (names.contains(name) && name != from)
            || (names.contains(from) && name == to),
{
    let renamed = renamed_idents(names, from, to);
    if renamed.contains(name) {
        let i = choose|i: int| 0 <= i < renamed.len() && renamed[i] == name;
        assert(names[i] == from || names[i] == name);
        assert(names.contains(names[i]));
    }
    if names.contains(name) && name != from {
        let i = choose|i: int| 0 <= i < names.len() && names[i] == name;
        assert(renamed[i] == name);
    }
    if names.contains(from) && name == to {
        let i = choose|i: int| 0 <= i < names.len() && names[i] == from;
        assert(renamed[i] == name);
    }
}

/// What occurs in a type after a renaming: every identifier but `from`
/// that occurred before, and `to` where `from` occurred.
pub proof fn lemma_renamed_mentions(ty: TypeView, from: Seq<char>, to: Seq<char>, name: Seq<char>)
    ensures
        ty.renamed(from, to).mentions(name) <==> (ty.mentions(name) && name != from) || (
        ty.mentions(from) && name == to),
    decreases ty,
{
    let renamed = ty.renamed(from, to);
    if let HeadView::Path(segments) = ty.head {
        lemma_renamed_idents_contain(segments, from, to, name);
    }
    assert forall|i: int| 0 <= i < ty.args.len() implies (renamed.args[i].mentions(name) <==> (
    ty.args[i].mentions(name) && name != from) || (ty.args[i].mentions(from) && name == to)) by {
        lemma_renamed_mentions(ty.args[i], from, to, name);
    }
    if renamed.mentions(name) && !renamed.head.mentions(name) {
        let i = choose|i: int| 0 <= i < renamed.args.len() && (#[trigger] renamed.args[i]).mentions(
            name,
        );
        assert(renamed.args[i] == ty.args[i].renamed(from, to));
        assert(ty.args[i].mentions(name) || ty.args[i].mentions(from));
    }
    if ty.mentions(name) && name != from && !ty.head.mentions(name) {
        let i = choose|i: int| 0 <= i < ty.args.len() && (#[trigger] ty.args[i]).mentions(name);
        assert(renamed.args[i].mentions(name));
    }
    if ty.mentions(from) && name == to && !ty.head.mentions(from) {
        let i = choose|i: int| 0 <= i < ty.args.len() && (#[trigger] ty.args[i]).mentions(from);
        assert(renamed.args[i].mentions(name));
    }
}

/// Once a name has been exchanged for another, it occurs no more.
pub proof fn lemma_renamed_forgets(ty: TypeView, from: Seq<char>, to: Seq<char>)
    requires
        from != to,
    ensures
        !ty.renamed(from, to).mentions(from),
{
    lemma_renamed_mentions(ty, from, to, from);
}

/// A field that was the name `from` and nothing else is the name `to` and
/// nothing else after the renaming.
pub proof fn lemma_renamed_bare(ty: TypeView, from: Seq<char>, to: Seq<char>)
    requires
        ty.is_bare(from),
    ensures
        ty.renamed(from, to).is_bare(to),
{
    assert(renamed_idents(seq![from], from, to) =~= seq![to]);
}

/// The views of a list of types.
pub open spec fn types_view(types: Seq<TypeExpr>) -> Seq<TypeView> {
    Seq::new(types.len(), |i: int| types[i]@)
}

/// The source text of each of `types`, in order.
pub open spec fn rendered_types(types: Seq<TypeView>) -> Seq<Seq<char>> {
    Seq::new(types.len(), |i: int| types[i].rendered())
}

/// Each of `types` with every identifier `from` exchanged for `to`.
pub open spec fn renamed_types(types: Seq<TypeView>, from: Seq<char>, to: Seq<char>) -> Seq<
    TypeView,
> {
    Seq::new(types.len(), |i: int| types[i].renamed(from, to))
}

/// The lifetime `'name`: an apostrophe before the name.
pub open spec fn lifetime_view(name: Seq<char>) -> TypeView {
    TypeView {
        head: HeadView::Syntax(seq!["'"@, Seq::empty()]),
        args: seq![TypeView { head: HeadView::Name(name), args: Seq::empty() }],
    }
}

/// A copy of `types`.
pub fn clone_types(types: &Vec<TypeExpr>) -> (copy: Vec<TypeExpr>)
    ensures
        types_view(copy@) == types_view(types@),
{
    let mut copy: Vec<TypeExpr> = Vec::new();
    let mut i: usize = 0;
    while i < types.len()
        invariant
            i <= types.len(),
            copy.len() == i,
            forall|k: int| 0 <= k < i ==> (#[trigger] copy@[k])@ == types@[k]@,
        decreases types.len() - i,
    {
        copy.push(types[i].clone());
        i += 1;
    }
    assert(types_view(copy@) =~= types_view(types@));
    copy
}

/// Writes each of `types`.
pub fn render_types(types: &Vec<TypeExpr>) -> (out: Vec<String>)
    ensures
        out.deep_view() == rendered_types(types_view(types@)),
{
    let mut out: Vec<String> = Vec::new();
    let mut i: usize = 0;
    while i < types.len()
        invariant
            i <= types.len(),
            out.len() == i,
            forall|k: int| 0 <= k < i ==> (#[trigger] out@[k])@ == types@[k]@.rendered(),
        decreases types.len() - i,
    {
        out.push(types[i].render());
        i += 1;
    }
    assert(out.deep_view() =~= rendered_types(types_view(types@)));
    out
}

/// Writes `items` between angle brackets, or nothing where there are none.
pub fn angle(items: &Vec<String>) -> (out: String)
    ensures
        out@ == angled(items.deep_view()),
{
    let mut out = String::new();
    if items.len() > 0 {
        out.append("<");
        out.append(join(items, ", ").as_str());
        out.append(">");
        assert(out@ =~= angled(items.deep_view()));
    }
    out
}

impl Clone for TypeHead {
    fn clone(&self) -> (copy: Self)
        ensures
            copy@ == self@,
    {
        match self {
            TypeHead::Path(segments) => TypeHead::Path(clone_names(segments)),
            TypeHead::Tuple => TypeHead::Tuple,
            TypeHead::Syntax(pieces) => TypeHead::Syntax(clone_names(pieces)),
            TypeHead::Name(name) => TypeHead::Name(name.clone()),
            TypeHead::Opaque(text) => TypeHead::Opaque(text.clone()),
        }
    }
}

impl Clone for TypeExpr {
    fn clone(&self) -> (copy: Self)
        ensures
            copy@ == self@,
        decreases self,
    {
        let mut args: Vec<TypeExpr> = Vec::new();
        let mut i: usize = 0;
        while i < self.args.len()
            invariant
                i <= self.args.len(),
                args.len() == i,
                forall|k: int| 0 <= k < i ==> (#[trigger] args@[k])@ == self.args@[k]@,
            decreases self.args.len() - i,
        {
            args.push(self.args[i].clone());
            i += 1;
        }
        let copy = TypeExpr { head: self.head.clone(), args };
        assert(copy@.args =~= self@.args);
        copy
    }
}

impl TypeExpr {
    /// The type that is the single identifier `name`.
    pub fn ident(name: &str) -> (ty: TypeExpr)
        ensures
            ty@.is_bare(name@),
            ty@ == (TypeView { head: HeadView::Path(seq![name@]), args: Seq::empty() }),
    {
        let mut segments: Vec<String> = Vec::new();
        segments.push(String::from_str(name));
        assert(segments.deep_view() =~= seq![name@]);
        let ty = TypeExpr { head: TypeHead::Path(segments), args: Vec::new() };
        assert(ty@.args =~= Seq::empty());
        ty
    }

    /// The lifetime `'name`.
    pub fn lifetime(name: &str) -> (ty: TypeExpr)
        ensures
            ty@ == lifetime_view(name@),
    {
        let mut pieces: Vec<String> = Vec::new();
        pieces.push(String::from_str("'"));
        pieces.push(String::new());
        assert(pieces.deep_view() =~= seq!["'"@, Seq::empty()]);
        let inner = TypeExpr { head: TypeHead::Name(String::from_str(name)), args: Vec::new() };
        assert(inner@.args =~= Seq::empty());
        let mut args: Vec<TypeExpr> = Vec::new();
        args.push(inner);
        let ty = TypeExpr { head: TypeHead::Syntax(pieces), args };
        assert(ty@.args =~= seq![TypeView { head: HeadView::Name(name@), args: Seq::empty() }]);
        ty
    }

    /// The path `segments` applied to `args`.
    pub fn path(segments: Vec<String>, args: Vec<TypeExpr>) -> (ty: TypeExpr)
        ensures
            ty.head == TypeHead::Path(segments),
            ty.args == args,
    {
        TypeExpr { head: TypeHead::Path(segments), args }
    }

    /// Whether the type is the single identifier `name` and nothing else.
    pub fn is_bare(&self, name: &String) -> (bare: bool)
        ensures
            bare == self@.is_bare(name@),
    {
        match &self.head {
            TypeHead::Path(segments) => {
                if segments.len() == 1 && self.args.len() == 0 {
                    let same = segments[0] == *name;
                    proof {
                        if same {
                            assert(segments.deep_view() =~= seq![name@]);
                        } else {
                            assert(segments.deep_view()[0] != seq![name@][0]);
                        }
                    }
                    same
                } else {
                    proof {
                        if self.args.len() == 0 {
                            assert(segments.deep_view().len() != seq![name@].len());
                        }
                    }
                    false
                }
            },
            _ => false,
        }
    }

    /// The source text of the type.
    pub fn render(&self) -> (out: String)
        ensures
            out@ == self@.rendered(),
        decreases self,
    {
        let mut parts: Vec<String> = Vec::new();
        let mut i: usize = 0;
        while i < self.args.len()
            invariant
                i <= self.args.len(),
                parts.len() == i,
                forall|k: int| 0 <= k < i ==> (#[trigger] parts@[k])@ == self.args@[k]@.rendered(),
            decreases self.args.len() - i,
        {
            parts.push(self.args[i].render());
            i += 1;
        }
        assert(parts.deep_view() =~= self@.rendered_args());
        match &self.head {
            TypeHead::Path(segments) => {
                let mut out = join(segments, "::");
                out.append(angle(&parts).as_str());
                out
            },
            TypeHead::Tuple => {
                let mut out = String::from_str("(");
                out.append(terminate(&parts, ", ").as_str());
                out.append(")");
                out
            },
            TypeHead::Syntax(pieces) => weave(pieces, &parts),
            TypeHead::Name(name) => {
                let mut out = name.clone();
                out.append(angle(&parts).as_str());
                out
            },
            TypeHead::Opaque(text) => {
                let mut out = text.clone();
                out.append(angle(&parts).as_str());
                out
            },
        }
    }
}

} // verus!

//! The logical shape of a tree schema: generic parameters, fields, variants.

use crate::text::{decimal, decimal_text, join, joined};
use crate::ty::{
    angle, angled, clone_types, render_types, rendered_types, types_view, TypeExpr, TypeView,
};
use vstd::prelude::*;

verus! {

/// One generic parameter of a schema or of a node type.
#[derive(Debug, PartialEq, Eq)]
pub enum GenericParam {
    /// A type parameter with its bounds.
    Type { ident: String, bounds: Vec<TypeExpr> },
    /// A lifetime parameter; `ident` is the name without the apostrophe.
    Lifetime { ident: String },
    /// A const parameter with its type.
    Const { ident: String, ty: TypeExpr },
}

/// The mathematical value of a [`GenericParam`].
pub enum ParamView {
    Type { ident: Seq<char>, bounds: Seq<TypeView> },
    Lifetime { ident: Seq<char> },
    Const { ident: Seq<char>, ty: TypeView },
}

/// A field that has a name.
#[derive(Debug, PartialEq, Eq)]
pub struct NamedField {
    /// What the schema writes before the field, word for word: attributes and
    /// visibility, with the space that parts them from the name. Empty
    /// where there is nothing.
    pub prefix: String,
    pub ident: String,
    pub ty: TypeExpr,
}

/// A field that is known by its position.
#[derive(Debug, PartialEq, Eq)]
pub struct PositionalField {
    /// What the schema writes before the field, word for word: attributes and
    /// visibility, with the space that parts them from the type. Empty
    /// where there is nothing.
    pub prefix: String,
    pub ty: TypeExpr,
}

/// The fields of a variant, in one of the three shapes.
#[derive(Debug, PartialEq, Eq)]
pub enum Fields {
    /// `{ a: A, b: B }`
    Named(Vec<NamedField>),
    /// `(A, B)`
    Unnamed(Vec<PositionalField>),
    /// No fields at all.
    Unit,
}

/// The shape of a field list.
#[derive(Clone, Copy, PartialEq, Eq, Structural, Debug)]
pub enum Shape {
    Named,
    Unnamed,
    Unit,
}

/// One field as the emitters see it: what stands before it in the schema,
/// how it is reached, and its type.
pub struct FieldView {
    /// Attributes and visibility, word for word.
    pub prefix: Seq<char>,
    /// The field's name or, for a positional field, the numeral of its
    /// position.
    pub accessor: Seq<char>,
    pub ty: TypeView,
}

/// The mathematical value of [`Fields`].
pub struct FieldsView {
    pub shape: Shape,
    pub fields: Seq<FieldView>,
}

/// One variant of the schema.
#[derive(Debug, PartialEq, Eq)]
pub struct Variant {
    pub ident: String,
    pub fields: Fields,
}

/// The mathematical value of a [`Variant`].
pub struct VariantView {
    pub ident: Seq<char>,
    pub fields: FieldsView,
}

impl ParamView {
    /// The parameter's name.
    pub open spec fn ident(self) -> Seq<char> {
        match self {
            ParamView::Type { ident, .. } => ident,
            ParamView::Lifetime { ident } => ident,
            ParamView::Const { ident, .. } => ident,
        }
    }

    /// The type parameter `ident` without bounds.
    pub open spec fn plain(ident: Seq<char>) -> ParamView {
        ParamView::Type { ident, bounds: Seq::empty() }
    }

    /// Whether this is the type parameter named `name`.
    pub open spec fn is_type_named(self, name: Seq<char>) -> bool {
        self matches ParamView::Type { ident, .. } && ident == name
    }
}

impl View for GenericParam {
    type V = ParamView;

    open spec fn view(&self) -> ParamView {
        match self {
            GenericParam::Type { ident, bounds } => ParamView::Type {
                ident: ident@,
                bounds: types_view(bounds@),
            },
            GenericParam::Lifetime { ident } => ParamView::Lifetime { ident: ident@ },
            GenericParam::Const { ident, ty } => ParamView::Const { ident: ident@, ty: ty@ },
        }
    }
}

/// The views of a parameter list.
pub open spec fn params_view(params: Seq<GenericParam>) -> Seq<ParamView> {
    Seq::new(params.len(), |i: int| params[i]@)
}

impl View for NamedField {
    type V = FieldView;

    open spec fn view(&self) -> FieldView {
        FieldView { prefix: self.prefix@, accessor: self.ident@, ty: self.ty@ }
    }
}

impl View for Fields {
    type V = FieldsView;

    open spec fn view(&self) -> FieldsView {
        match self {
            Fields::Named(named) => FieldsView {
                shape: Shape::Named,
                fields: Seq::new(named@.len(), |i: int| named@[i]@),
            },
            Fields::Unnamed(unnamed) => FieldsView {
                shape: Shape::Unnamed,
                fields: Seq::new(
                    unnamed@.len(),
                    |i: int|
                        FieldView {
                            prefix: unnamed@[i].prefix@,
                            accessor: decimal(i as nat),
                            ty: unnamed@[i].ty@,
                        },
                ),
            },
            Fields::Unit => FieldsView { shape: Shape::Unit, fields: Seq::empty() },
        }
    }
}

impl View for Variant {
    type V = VariantView;

    open spec fn view(&self) -> VariantView {
        VariantView { ident: self.ident@, fields: self.fields@ }
    }
}

impl FieldsView {
    /// Whether `name` occurs as a path segment in the type of some field.
    pub open spec fn refers_to(self, name: Seq<char>) -> bool {
        exists|i: int|
            0 <= i < self.fields.len() && (#[trigger] self.fields[i]).ty.refers_to(name)
    }
}

impl VariantView {
    /// Whether `name` occurs as a path segment in the type of some field of
    /// the variant.
    pub open spec fn refers_to(self, name: Seq<char>) -> bool {
        self.fields.refers_to(name)
    }
}

impl GenericParam {
    /// The type parameter `ident` without bounds.
    pub fn plain(ident: String) -> (param: GenericParam)
        ensures
            param@ == ParamView::plain(ident@),
    {
        let param = GenericParam::Type { ident, bounds: Vec::new() };
        assert(param@->Type_bounds =~= Seq::empty());
        param
    }

    /// The parameter's name.
    pub fn ident(&self) -> (ident: &String)
        ensures
            ident@ == self@.ident(),
    {
        match self {
            GenericParam::Type { ident, .. } => ident,
            GenericParam::Lifetime { ident } => ident,
            GenericParam::Const { ident, .. } => ident,
        }
    }
}

impl Clone for GenericParam {
    fn clone(&self) -> (copy: Self)
        ensures
            copy@ == self@,
    {
        match self {
            GenericParam::Type { ident, bounds } => GenericParam::Type {
                ident: ident.clone(),
                bounds: clone_types(bounds),
            },
            GenericParam::Lifetime { ident } => GenericParam::Lifetime { ident: ident.clone() },
            GenericParam::Const { ident, ty } => GenericParam::Const {
                ident: ident.clone(),
                ty: ty.clone(),
            },
        }
    }
}

/// A copy of a parameter list.
pub fn clone_params(params: &Vec<GenericParam>) -> (copy: Vec<GenericParam>)
    ensures
        params_view(copy@) == params_view(params@),
{
    let mut copy: Vec<GenericParam> = Vec::new();
    let mut i: usize = 0;
    while i < params.len()
        invariant
            i <= params.len(),
            copy.len() == i,
            forall|k: int| 0 <= k < i ==> (#[trigger] copy@[k])@ == params@[k]@,
        decreases params.len() - i,
    {
        copy.push(params[i].clone());
        i += 1;
    }
    assert(params_view(copy@) =~= params_view(params@));
    copy
}

impl Clone for NamedField {
    fn clone(&self) -> (copy: Self)
        ensures
            copy@ == self@,
    {
        NamedField { prefix: self.prefix.clone(), ident: self.ident.clone(), ty: self.ty.clone() }
    }
}

impl NamedField {
    /// The field `ident` of type `ty` with nothing before it.
    pub fn plain(ident: &str, ty: TypeExpr) -> (field: Self)
        ensures
            field@ == (FieldView { prefix: Seq::empty(), accessor: ident@, ty: ty@ }),
    {
        NamedField { prefix: String::new(), ident: String::from_str(ident), ty }
    }
}

impl Clone for PositionalField {
    fn clone(&self) -> (copy: Self)
        ensures
            copy.prefix@ == self.prefix@,
            copy.ty@ == self.ty@,
    {
        PositionalField { prefix: self.prefix.clone(), ty: self.ty.clone() }
    }
}

impl Fields {
    /// The number of fields.
    pub fn len(&self) -> (n: usize)
        ensures
            n == self@.fields.len(),
    {
        match self {
            Fields::Named(named) => named.len(),
            Fields::Unnamed(unnamed) => unnamed.len(),
            Fields::Unit => 0,
        }
    }

    /// The shape of the field list.
    pub fn shape(&self) -> (shape: Shape)
        ensures
            shape == self@.shape,
    {
        match self {
            Fields::Named(_) => Shape::Named,
            Fields::Unnamed(_) => Shape::Unnamed,
            Fields::Unit => Shape::Unit,
        }
    }

    /// The type of the field at `index`.
    pub fn ty(&self, index: usize) -> (ty: &TypeExpr)
        requires
            index < self@.fields.len(),
        ensures
            ty@ == self@.fields[index as int].ty,
    {
        match self {
            Fields::Named(named) => &named[index].ty,
            Fields::Unnamed(unnamed) => &unnamed[index].ty,
            Fields::Unit => vstd::pervasive::unreached(),
        }
    }

    /// What stands before the field at `index` in the schema.
    pub fn prefix(&self, index: usize) -> (prefix: String)
        requires
            index < self@.fields.len(),
        ensures
            prefix@ == self@.fields[index as int].prefix,
    {
        match self {
            Fields::Named(named) => named[index].prefix.clone(),
            Fields::Unnamed(unnamed) => unnamed[index].prefix.clone(),
            Fields::Unit => String::new(),
        }
    }

    /// Positional fields of the types `types`, with nothing before them.
    pub fn positional(types: Vec<TypeExpr>) -> (fields: Self)
        ensures
            fields@.shape == Shape::Unnamed,
            fields@.fields.len() == types@.len(),
            forall|i: int|
                0 <= i < types@.len() ==> #[trigger] fields@.fields[i] == (FieldView {
                    prefix: Seq::empty(),
                    accessor: decimal(i as nat),
                    ty: types@[i]@,
                }),
    {
        let mut unnamed: Vec<PositionalField> = Vec::new();
        let mut i: usize = 0;
        while i < types.len()
            invariant
                i <= types.len(),
                unnamed.len() == i,
                forall|k: int|
                    0 <= k < i ==> (#[trigger] unnamed@[k]).prefix@ == Seq::<char>::empty()
                        && unnamed@[k].ty@ == types@[k]@,
            decreases types.len() - i,
        {
            unnamed.push(PositionalField { prefix: String::new(), ty: types[i].clone() });
            i += 1;
        }
        Fields::Unnamed(unnamed)
    }

    /// How the field at `index` is reached: its name, or the numeral of its
    /// position.
    pub fn accessor(&self, index: usize) -> (accessor: String)
        requires
            index < self@.fields.len(),
        ensures
            accessor@ == self@.fields[index as int].accessor,
    {
        match self {
            Fields::Named(named) => named[index].ident.clone(),
            _ => decimal_text(index),
        }
    }
}

impl Clone for Fields {
    fn clone(&self) -> (copy: Self)
        ensures
            copy@ == self@,
    {
        match self {
            Fields::Named(named) => {
                let mut copy: Vec<NamedField> = Vec::new();
                let mut i: usize = 0;
                while i < named.len()
                    invariant
                        i <= named.len(),
                        copy.len() == i,
                        forall|k: int| 0 <= k < i ==> (#[trigger] copy@[k])@ == named@[k]@,
                    decreases named.len() - i,
                {
                    copy.push(named[i].clone());
                    i += 1;
                }
                let copy = Fields::Named(copy);
                assert(copy@.fields =~= self@.fields);
                copy
            },
            Fields::Unnamed(unnamed) => {
                let mut copy: Vec<PositionalField> = Vec::new();
                let mut i: usize = 0;
                while i < unnamed.len()
                    invariant
                        i <= unnamed.len(),
                        copy.len() == i,
                        forall|k: int|
                            0 <= k < i ==> (#[trigger] copy@[k]).prefix@ == unnamed@[k].prefix@
                                && copy@[k].ty@ == unnamed@[k].ty@,
                    decreases unnamed.len() - i,
                {
                    copy.push(unnamed[i].clone());
                    i += 1;
                }
                let copy = Fields::Unnamed(copy);
                assert(copy@.fields =~= self@.fields);
                copy
            },
            Fields::Unit => Fields::Unit,
        }
    }
}

impl Clone for Variant {
    fn clone(&self) -> (copy: Self)
        ensures
            copy@ == self@,
    {
        Variant { ident: self.ident.clone(), fields: self.fields.clone() }
    }
}

impl ParamView {
    /// The text that declares the parameter, bounds included.
    pub open spec fn declared(self) -> Seq<char> {
        match self {
            ParamView::Type { ident, bounds } => if bounds.len() == 0 {
                ident
            } else {
                ident + ": "@ + joined(rendered_types(bounds), " + "@)
            },
            ParamView::Lifetime { ident } => "'"@ + ident,
            ParamView::Const { ident, ty } => "const "@ + ident + ": "@ + ty.rendered(),
        }
    }

    /// The text that names the parameter where it is used as an argument.
    pub open spec fn used(self) -> Seq<char> {
        match self {
            ParamView::Lifetime { ident } => "'"@ + ident,
            other => other.ident(),
        }
    }
}

/// The declaration of each parameter, in order.
pub open spec fn declared_params(params: Seq<ParamView>) -> Seq<Seq<char>> {
    Seq::new(params.len(), |i: int| params[i].declared())
}

/// The argument for each parameter, in order.
pub open spec fn used_params(params: Seq<ParamView>) -> Seq<Seq<char>> {
    Seq::new(params.len(), |i: int| params[i].used())
}

/// The type `ident` applied to its own parameters.
pub open spec fn applied(ident: Seq<char>, params: Seq<ParamView>) -> Seq<char> {
    ident + angled(used_params(params))
}

impl GenericParam {
    /// Writes the declaration of the parameter.
    pub fn declare(&self) -> (out: String)
        ensures
            out@ == self@.declared(),
    {
        match self {
            GenericParam::Type { ident, bounds } => {
                let mut out = ident.clone();
                if bounds.len() > 0 {
                    out.append(": ");
                    out.append(join(&render_types(bounds), " + ").as_str());
                }
                out
            },
            GenericParam::Lifetime { ident } => {
                let mut out = String::from_str("'");
                out.append(ident.as_str());
                out
            },
            GenericParam::Const { ident, ty } => {
                let mut out = String::from_str("const ");
                out.append(ident.as_str());
                out.append(": ");
                out.append(ty.render().as_str());
                out
            },
        }
    }

    /// Writes the parameter as an argument.
    pub fn name(&self) -> (out: String)
        ensures
            out@ == self@.used(),
    {
        match self {
            GenericParam::Lifetime { ident } => {
                let mut out = String::from_str("'");
                out.append(ident.as_str());
                out
            },
            GenericParam::Type { ident, .. } => ident.clone(),
            GenericParam::Const { ident, .. } => ident.clone(),
        }
    }
}

/// Writes the declaration of each parameter.
pub fn declare_params(params: &Vec<GenericParam>) -> (out: Vec<String>)
    ensures
        out.deep_view() == declared_params(params_view(params@)),
{
    let mut out: Vec<String> = Vec::new();
    let mut i: usize = 0;
    while i < params.len()
        invariant
            i <= params.len(),
            out.len() == i,
            forall|k: int| 0 <= k < i ==> (#[trigger] out@[k])@ == params@[k]@.declared(),
        decreases params.len() - i,
    {
        out.push(params[i].declare());
        i += 1;
    }
    assert(out.deep_view() =~= declared_params(params_view(params@)));
    out
}

/// Writes each parameter as an argument.
pub fn name_params(params: &Vec<GenericParam>) -> (out: Vec<String>)
    ensures
        out.deep_view() == used_params(params_view(params@)),
{
    let mut out: Vec<String> = Vec::new();
    let mut i: usize = 0;
    while i < params.len()
        invariant
            i <= params.len(),
            out.len() == i,
            forall|k: int| 0 <= k < i ==> (#[trigger] out@[k])@ == params@[k]@.used(),
        decreases params.len() - i,
    {
        out.push(params[i].name());
        i += 1;
    }
    assert(out.deep_view() =~= used_params(params_view(params@)));
    out
}

/// Writes the type `ident` applied to its own parameters.
pub fn write_applied(ident: &str, params: &Vec<GenericParam>) -> (out: String)
    ensures
        out@ == applied(ident@, params_view(params@)),
{
    let mut out = String::from_str(ident);
    out.append(angle(&name_params(params)).as_str());
    out
}

} // verus!

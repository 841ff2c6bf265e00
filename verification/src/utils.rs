//! Visitors over type expressions, and the field mapper.

use crate::schema::{
    params_view, FieldView, Fields, FieldsView, GenericParam, NamedField, ParamView,
    PositionalField, Shape, Variant, VariantView,
};
use crate::text::{clone_names, contains_name, join, joined};
use crate::ty::{
    renamed_ident, renamed_idents, renamed_types, types_view, TypeExpr, TypeHead, TypeView,
};
use vstd::prelude::*;

verus! {

/// Looks for one identifier in what it is shown.
#[derive(Debug)]
pub struct FindIdent {
    ident: String,
    matched: bool,
}

impl FindIdent {
    /// The identifier that is looked for.
    pub closed spec fn target(&self) -> Seq<char> {
        self.ident@
    }

    /// Whether the identifier has been seen.
    pub closed spec fn found(&self) -> bool {
        self.matched
    }

    /// A finder for `ident` that has seen nothing yet.
    pub fn new(ident: String) -> (finder: Self)
        ensures
            finder.target() == ident@,
            !finder.found(),
    {
        Self { ident, matched: false }
    }

    /// Whether the identifier has been seen so far.
    pub fn matched(&self) -> (matched: bool)
        ensures
            matched == self.found(),
    {
        self.matched
    }

    /// Shows the finder one identifier, which comes back unchanged.
    pub fn fold_ident(&mut self, ident: String) -> (out: String)
        ensures
            out == ident,
            final(self).target() == old(self).target(),
            final(self).found() == (old(self).found() || ident@ == old(self).target()),
    {
        if ident == self.ident {
            self.matched = true;
        }
        ident
    }

    /// Shows the finder every identifier of `ty`.
    fn scan_type(&mut self, ty: &TypeExpr)
        ensures
            final(self).target() == old(self).target(),
            final(self).found() == (old(self).found() || ty@.mentions(old(self).target())),
        decreases ty,
    {
        match &ty.head {
            TypeHead::Path(segments) => {
                let mut i: usize = 0;
                while i < segments.len()
                    invariant
                        i <= segments.len(),
                        self.target() == old(self).target(),
                        self.found() == (old(self).found() || exists|k: int|
                            0 <= k < i && segments.deep_view()[k] == old(self).target()),
                    decreases segments.len() - i,
                {
                    let ghost before = self.found();
                    let _ = self.fold_ident(segments[i].clone());
                    proof {
                        let target = old(self).target();
                        let names = segments.deep_view();
                        assert(names[i as int] == segments@[i as int]@);
                        if exists|k: int| 0 <= k < i + 1 && names[k] == target {
                            let k = choose|k: int| 0 <= k < i + 1 && names[k] == target;
                            if k < i {
                                assert(0 <= k < i && names[k] == target);
                            }
                        }
                        if before && !old(self).found() {
                            let k = choose|k: int| 0 <= k < i && names[k] == target;
                            assert(0 <= k < i + 1 && names[k] == target);
                        }
                        if names[i as int] == target {
                            assert(0 <= i < i + 1 && names[i as int] == target);
                        }
                    }
                    i += 1;
                }
            },
            TypeHead::Name(name) => {
                let _ = self.fold_ident(name.clone());
            },
            _ => {},
        }
        let mut j: usize = 0;
        while j < ty.args.len()
            invariant
                j <= ty.args.len(),
                self.target() == old(self).target(),
                self.found() == (old(self).found() || ty@.head.mentions(old(self).target())
                    || exists|k: int|
                    0 <= k < j && (#[trigger] ty@.args[k]).mentions(old(self).target())),
            decreases ty.args.len() - j,
        {
            let ghost before = self.found();
            self.scan_type(&ty.args[j]);
            proof {
                let target = old(self).target();
                assert(ty@.args[j as int] == ty.args@[j as int]@);
                if exists|k: int| 0 <= k < j + 1 && (#[trigger] ty@.args[k]).mentions(target) {
                    let k = choose|k: int|
                        0 <= k < j + 1 && (#[trigger] ty@.args[k]).mentions(target);
                    if k < j {
                        assert(0 <= k < j && ty@.args[k].mentions(target));
                    }
                }
                if before && !old(self).found() && !ty@.head.mentions(target) {
                    let k = choose|k: int| 0 <= k < j && (#[trigger] ty@.args[k]).mentions(target);
                    assert(0 <= k < j + 1 && ty@.args[k].mentions(target));
                }
                if ty@.args[j as int].mentions(target) {
                    assert(0 <= j < j + 1 && ty@.args[j as int].mentions(target));
                }
            }
            j += 1;
        }
    }

    /// Shows the finder every identifier of `ty`, which comes back
    /// unchanged.
    pub fn fold_type(&mut self, ty: TypeExpr) -> (out: TypeExpr)
        ensures
            out == ty,
            final(self).target() == old(self).target(),
            final(self).found() == (old(self).found() || ty@.mentions(old(self).target())),
    {
        self.scan_type(&ty);
        ty
    }
}

/// Exchanges one identifier for another wherever it is shown one.
#[derive(Debug)]
pub struct ReplaceIdent {
    replace: String,
    with: String,
}

impl FieldsView {
    /// The fields with every identifier `from` exchanged for `to` in the
    /// field names and in the field types. What stands before a field stays
    /// word for word.
    pub open spec fn renamed(self, from: Seq<char>, to: Seq<char>) -> FieldsView {
        FieldsView {
            shape: self.shape,
            fields: Seq::new(
                self.fields.len(),
                |i: int|
                    FieldView {
                        prefix: self.fields[i].prefix,
                        accessor: if self.shape == Shape::Named {
                            renamed_ident(self.fields[i].accessor, from, to)
                        } else {
                            self.fields[i].accessor
                        },
                        ty: self.fields[i].ty.renamed(from, to),
                    },
            ),
        }
    }
}

impl VariantView {
    /// The variant with every identifier `from` exchanged for `to`.
    pub open spec fn renamed(self, from: Seq<char>, to: Seq<char>) -> VariantView {
        VariantView {
            ident: renamed_ident(self.ident, from, to),
            fields: self.fields.renamed(from, to),
        }
    }
}

impl ParamView {
    /// The parameter with the identifier `from` exchanged for `to` in its
    /// name, in its bounds and in its type.
    pub open spec fn renamed(self, from: Seq<char>, to: Seq<char>) -> ParamView {
        match self {
            ParamView::Type { ident, bounds } => ParamView::Type {
                ident: renamed_ident(ident, from, to),
                bounds: renamed_types(bounds, from, to),
            },
            ParamView::Lifetime { ident } => ParamView::Lifetime {
                ident: renamed_ident(ident, from, to),
            },
            ParamView::Const { ident, ty } => ParamView::Const {
                ident: renamed_ident(ident, from, to),
                ty: ty.renamed(from, to),
            },
        }
    }
}

/// The parameters with every name `from` exchanged for `to`.
pub open spec fn renamed_params(params: Seq<ParamView>, from: Seq<char>, to: Seq<char>) -> Seq<
    ParamView,
> {
    Seq::new(params.len(), |i: int| params[i].renamed(from, to))
}

/// Once a name has been exchanged for another, no field type of the variant
/// mentions it, at any depth, and neither the variant nor a field is called
/// by it.
pub proof fn lemma_renamed_variant_forgets(variant: VariantView, from: Seq<char>, to: Seq<char>)
    requires
        from != to,
    ensures
        variant.renamed(from, to).ident != from,
        variant.renamed(from, to).fields.fields.len() == variant.fields.fields.len(),
        forall|i: int|
            0 <= i < variant.fields.fields.len() ==> !(#[trigger] variant.renamed(
                from,
                to,
            ).fields.fields[i]).ty.mentions(from),
        variant.fields.shape == Shape::Named ==> forall|i: int|
            0 <= i < variant.fields.fields.len() ==> (#[trigger] variant.renamed(
                from,
                to,
            ).fields.fields[i]).accessor != from,
{
    assert forall|i: int| 0 <= i < variant.fields.fields.len() implies !(#[trigger] variant.renamed(
        from,
        to,
    ).fields.fields[i]).ty.mentions(from) by {
        crate::ty::lemma_renamed_forgets(variant.fields.fields[i].ty, from, to);
    }
}

impl ReplaceIdent {
    /// The identifier that is exchanged.
    pub closed spec fn from(&self) -> Seq<char> {
        self.replace@
    }

    /// The identifier that takes its place.
    pub closed spec fn to(&self) -> Seq<char> {
        self.with@
    }

    /// A visitor that exchanges `replace` for `with`.
    pub fn replace_with(replace: String, with: String) -> (visitor: Self)
        ensures
            visitor.from() == replace@,
            visitor.to() == with@,
    {
        Self { replace, with }
    }

    /// `ident`, or the replacement where `ident` is the one to exchange.
    pub fn fold_ident(&self, ident: String) -> (out: String)
        ensures
            out@ == renamed_ident(ident@, self.from(), self.to()),
    {
        if ident == self.replace {
            self.with.clone()
        } else {
            ident
        }
    }

    /// A copy of `ty` with the identifier exchanged wherever it occurs.
    fn rebuild_type(&self, ty: &TypeExpr) -> (out: TypeExpr)
        ensures
            out@ == ty@.renamed(self.from(), self.to()),
        decreases ty,
    {
        let head = match &ty.head {
            TypeHead::Path(segments) => {
                let mut renamed: Vec<String> = Vec::new();
                let mut i: usize = 0;
                while i < segments.len()
                    invariant
                        i <= segments.len(),
                        renamed.len() == i,
                        forall|k: int|
                            0 <= k < i ==> (#[trigger] renamed@[k])@ == renamed_ident(
                                segments@[k]@,
                                self.from(),
                                self.to(),
                            ),
                    decreases segments.len() - i,
                {
                    renamed.push(self.fold_ident(segments[i].clone()));
                    i += 1;
                }
                assert(renamed.deep_view() =~= renamed_idents(
                    segments.deep_view(),
                    self.from(),
                    self.to(),
                ));
                TypeHead::Path(renamed)
            },
            TypeHead::Name(name) => TypeHead::Name(self.fold_ident(name.clone())),
            other => other.clone(),
        };
        let mut args: Vec<TypeExpr> = Vec::new();
        let mut j: usize = 0;
        while j < ty.args.len()
            invariant
                j <= ty.args.len(),
                args.len() == j,
                forall|k: int|
                    0 <= k < j ==> (#[trigger] args@[k])@ == ty.args@[k]@.renamed(
                        self.from(),
                        self.to(),
                    ),
            decreases ty.args.len() - j,
        {
            args.push(self.rebuild_type(&ty.args[j]));
            j += 1;
        }
        let out = TypeExpr { head, args };
        assert(out@.args =~= ty@.renamed(self.from(), self.to()).args);
        out
    }

    /// `ty` with the identifier exchanged wherever it occurs, at any depth.
    pub fn fold_type(&self, ty: TypeExpr) -> (out: TypeExpr)
        ensures
            out@ == ty@.renamed(self.from(), self.to()),
    {
        self.rebuild_type(&ty)
    }

    /// `fields` with the identifier exchanged in every field name and type.
    pub fn fold_fields(&self, fields: Fields) -> (out: Fields)
        ensures
            out@ == fields@.renamed(self.from(), self.to()),
    {
        match &fields {
            Fields::Named(named) => {
                let mut renamed: Vec<NamedField> = Vec::new();
                let mut i: usize = 0;
                while i < named.len()
                    invariant
                        i <= named.len(),
                        renamed.len() == i,
                        forall|k: int|
                            0 <= k < i ==> (#[trigger] renamed@[k])@ == (FieldView {
                                prefix: named@[k].prefix@,
                                accessor: renamed_ident(
                                    named@[k].ident@,
                                    self.from(),
                                    self.to(),
                                ),
                                ty: named@[k].ty@.renamed(self.from(), self.to()),
                            }),
                    decreases named.len() - i,
                {
                    renamed.push(
                        NamedField {
                            prefix: named[i].prefix.clone(),
                            ident: self.fold_ident(named[i].ident.clone()),
                            ty: self.rebuild_type(&named[i].ty),
                        },
                    );
                    i += 1;
                }
                let out = Fields::Named(renamed);
                assert(out@.fields =~= fields@.renamed(self.from(), self.to()).fields);
                out
            },
            Fields::Unnamed(unnamed) => {
                let mut renamed: Vec<PositionalField> = Vec::new();
                let mut i: usize = 0;
                while i < unnamed.len()
                    invariant
                        i <= unnamed.len(),
                        renamed.len() == i,
                        forall|k: int|
                            0 <= k < i ==> (#[trigger] renamed@[k]).prefix@ == unnamed@[k].prefix@
                                && renamed@[k].ty@ == unnamed@[k].ty@.renamed(
                                self.from(),
                                self.to(),
                            ),
                    decreases unnamed.len() - i,
                {
                    renamed.push(
                        PositionalField {
                            prefix: unnamed[i].prefix.clone(),
                            ty: self.rebuild_type(&unnamed[i].ty),
                        },
                    );
                    i += 1;
                }
                let out = Fields::Unnamed(renamed);
                assert(out@.fields =~= fields@.renamed(self.from(), self.to()).fields);
                out
            },
            Fields::Unit => {
                assert(fields@.renamed(self.from(), self.to()).fields =~= Seq::empty());
                Fields::Unit
            },
        }
    }

    /// `variant` with the identifier exchanged in its name, in every field
    /// name and in every field type.
    pub fn fold_variant(&self, variant: Variant) -> (out: Variant)
        ensures
            out@ == variant@.renamed(self.from(), self.to()),
    {
        let Variant { ident, fields } = variant;
        Variant { ident: self.fold_ident(ident), fields: self.fold_fields(fields) }
    }

    /// `param` with the identifier exchanged in its name, in its bounds and
    /// in its type.
    pub fn fold_generic_param(&self, param: &GenericParam) -> (out: GenericParam)
        ensures
            out@ == param@.renamed(self.from(), self.to()),
    {
        match param {
            GenericParam::Type { ident, bounds } => {
                let mut renamed: Vec<TypeExpr> = Vec::new();
                let mut i: usize = 0;
                while i < bounds.len()
                    invariant
                        i <= bounds.len(),
                        renamed.len() == i,
                        forall|k: int|
                            0 <= k < i ==> (#[trigger] renamed@[k])@ == bounds@[k]@.renamed(
                                self.from(),
                                self.to(),
                            ),
                    decreases bounds.len() - i,
                {
                    renamed.push(self.rebuild_type(&bounds[i]));
                    i += 1;
                }
                assert(types_view(renamed@) =~= renamed_types(
                    types_view(bounds@),
                    self.from(),
                    self.to(),
                ));
                GenericParam::Type { ident: self.fold_ident(ident.clone()), bounds: renamed }
            },
            GenericParam::Lifetime { ident } => GenericParam::Lifetime {
                ident: self.fold_ident(ident.clone()),
            },
            GenericParam::Const { ident, ty } => GenericParam::Const {
                ident: self.fold_ident(ident.clone()),
                ty: self.rebuild_type(ty),
            },
        }
    }

    /// `params` with the identifier exchanged in every parameter.
    pub fn fold_generics(&self, params: Vec<GenericParam>) -> (out: Vec<GenericParam>)
        ensures
            params_view(out@) == renamed_params(
                params_view(params@),
                self.from(),
                self.to(),
            ),
    {
        let mut out: Vec<GenericParam> = Vec::new();
        let mut i: usize = 0;
        while i < params.len()
            invariant
                i <= params.len(),
                out.len() == i,
                forall|k: int|
                    0 <= k < i ==> (#[trigger] out@[k])@ == params@[k]@.renamed(
                        self.from(),
                        self.to(),
                    ),
            decreases params.len() - i,
        {
            out.push(self.fold_generic_param(&params[i]));
            i += 1;
        }
        assert(params_view(out@) =~= renamed_params(
            params_view(params@),
            self.from(),
            self.to(),
        ));
        out
    }
}

/// The names among `targets` that occur in `ty` as a path segment.
pub open spec fn mentioned_in_type(ty: TypeView, targets: Set<Seq<char>>) -> Set<Seq<char>> {
    Set::new(|t: Seq<char>| targets.contains(t) && ty.refers_to(t))
}

/// The names among `targets` that occur in the field types of `variant` as
/// a path segment.
pub open spec fn mentioned_in_variant(variant: VariantView, targets: Set<Seq<char>>) -> Set<
    Seq<char>,
> {
    Set::new(|t: Seq<char>| targets.contains(t) && variant.refers_to(t))
}

/// Whether `name` is among the first `upto` of `names`.
pub open spec fn among_first(names: Seq<Seq<char>>, upto: int, name: Seq<char>) -> bool {
    exists|k: int| 0 <= k < upto && names[k] == name
}

/// Whether `name` is a path segment of the head of `ty` or of one of its
/// first `upto` arguments.
pub open spec fn mentioned_before(ty: TypeView, upto: int, name: Seq<char>) -> bool {
    ty.head.refers_to(name) || exists|k: int|
        0 <= k < upto && (#[trigger] ty.args[k]).refers_to(name)
}

/// Whether `name` is a path segment in one of the first `upto` fields.
pub open spec fn field_mentions_before(fields: FieldsView, upto: int, name: Seq<char>) -> bool {
    exists|k: int| 0 <= k < upto && (#[trigger] fields.fields[k]).ty.refers_to(name)
}

proof fn lemma_among_first_step(names: Seq<Seq<char>>, upto: int, name: Seq<char>)
    requires
        0 <= upto < names.len(),
    ensures
        among_first(names, upto + 1, name) <==> among_first(names, upto, name) || names[upto]
            == name,
{
    if among_first(names, upto + 1, name) {
        let k = choose|k: int| 0 <= k < upto + 1 && names[k] == name;
        if k < upto {
            assert(0 <= k < upto && names[k] == name);
        }
    }
    if among_first(names, upto, name) {
        let k = choose|k: int| 0 <= k < upto && names[k] == name;
        assert(0 <= k < upto + 1 && names[k] == name);
    }
    if names[upto] == name {
        assert(0 <= upto < upto + 1 && names[upto] == name);
    }
}

proof fn lemma_mentioned_before_step(ty: TypeView, upto: int, name: Seq<char>)
    requires
        0 <= upto < ty.args.len(),
    ensures
        mentioned_before(ty, upto + 1, name) <==> mentioned_before(ty, upto, name)
            || ty.args[upto].refers_to(name),
{
    if !ty.head.refers_to(name) {
        if mentioned_before(ty, upto + 1, name) {
            let k = choose|k: int| 0 <= k < upto + 1 && (#[trigger] ty.args[k]).refers_to(name);
            if k < upto {
                assert(0 <= k < upto && ty.args[k].refers_to(name));
            }
        }
        if mentioned_before(ty, upto, name) {
            let k = choose|k: int| 0 <= k < upto && (#[trigger] ty.args[k]).refers_to(name);
            assert(0 <= k < upto + 1 && ty.args[k].refers_to(name));
        }
        if ty.args[upto].refers_to(name) {
            assert(0 <= upto < upto + 1 && ty.args[upto].refers_to(name));
        }
    }
}

proof fn lemma_field_mentions_step(fields: FieldsView, upto: int, name: Seq<char>)
    requires
        0 <= upto < fields.fields.len(),
    ensures
        field_mentions_before(fields, upto + 1, name) <==> field_mentions_before(
            fields,
            upto,
            name,
        ) || fields.fields[upto].ty.refers_to(name),
{
    if field_mentions_before(fields, upto + 1, name) {
        let k = choose|k: int|
            0 <= k < upto + 1 && (#[trigger] fields.fields[k]).ty.refers_to(name);
        if k < upto {
            assert(0 <= k < upto && fields.fields[k].ty.refers_to(name));
        }
    }
    if field_mentions_before(fields, upto, name) {
        let k = choose|k: int| 0 <= k < upto && (#[trigger] fields.fields[k]).ty.refers_to(name);
        assert(0 <= k < upto + 1 && fields.fields[k].ty.refers_to(name));
    }
    if fields.fields[upto].ty.refers_to(name) {
        assert(0 <= upto < upto + 1 && fields.fields[upto].ty.refers_to(name));
    }
}

/// Collects which of a set of target names occur as path segments in what
/// it is shown.
#[derive(Debug)]
pub struct MentionedGenerics {
    targets: Vec<String>,
    mentioned: Vec<String>,
}

impl MentionedGenerics {
    /// The set of names that are looked for.
    pub closed spec fn goal(&self) -> Set<Seq<char>> {
        self.targets.deep_view().to_set()
    }

    /// The set of target names seen so far.
    pub closed spec fn seen(&self) -> Set<Seq<char>> {
        self.mentioned.deep_view().to_set()
    }

    /// No name is recorded twice.
    pub closed spec fn wf(&self) -> bool {
        self.mentioned.deep_view().no_duplicates()
    }

    /// A collector for `targets` that has seen nothing yet.
    pub fn new(targets: &Vec<String>) -> (collector: Self)
        ensures
            collector.wf(),
            collector.goal() == targets.deep_view().to_set(),
            collector.seen() == Set::<Seq<char>>::empty(),
    {
        let collector = Self { targets: clone_names(targets), mentioned: Vec::new() };
        assert(collector.seen() =~= Set::<Seq<char>>::empty());
        collector
    }

    /// Adds `names` to the names that are looked for. What was seen stays.
    pub fn extend_targets(&mut self, names: &Vec<String>)
        requires
            old(self).wf(),
        ensures
            final(self).wf(),
            final(self).goal() == old(self).goal().union(names.deep_view().to_set()),
            final(self).seen() == old(self).seen(),
    {
        let mut i: usize = 0;
        while i < names.len()
            invariant
                i <= names.len(),
                self.wf(),
                self.seen() == old(self).seen(),
                forall|t: Seq<char>| #[trigger]
                    self.goal().contains(t) <==> old(self).goal().contains(t) || among_first(
                        names.deep_view(),
                        i as int,
                        t,
                    ),
            decreases names.len() - i,
        {
            let ghost before = self.targets.deep_view();
            let ghost goal_before = self.goal();
            self.targets.push(names[i].clone());
            proof {
                let after = self.targets.deep_view();
                let added = names.deep_view()[i as int];
                assert(after =~= before.push(added));
                assert forall|t: Seq<char>| #[trigger]
                    self.goal().contains(t) <==> old(self).goal().contains(t) || among_first(
                        names.deep_view(),
                        i + 1,
                        t,
                    ) by {
                    lemma_among_first_step(names.deep_view(), i as int, t);
                    assert(goal_before.contains(t) <==> old(self).goal().contains(t)
                        || among_first(names.deep_view(), i as int, t));
                    if before.contains(t) {
                        let k = choose|k: int| 0 <= k < before.len() && before[k] == t;
                        assert(after[k] == t);
                    }
                    if t == added {
                        assert(after[before.len() as int] == t);
                    }
                    if after.contains(t) {
                        let k = choose|k: int| 0 <= k < after.len() && after[k] == t;
                        if k < before.len() {
                            assert(before[k] == t);
                        }
                    }
                }
            }
            i += 1;
        }
        assert(self.goal() =~= old(self).goal().union(names.deep_view().to_set()));
    }

    /// The target names that were seen, each once.
    pub fn into_mentioned(self) -> (mentioned: Vec<String>)
        requires
            self.wf(),
        ensures
            mentioned.deep_view().no_duplicates(),
            mentioned.deep_view().to_set() == self.seen(),
    {
        self.mentioned
    }

    /// Shows the collector one path segment, which comes back unchanged. The
    /// segment is recorded where it is a target.
    pub fn fold_path_segment(&mut self, segment: String) -> (out: String)
        requires
            old(self).wf(),
        ensures
            out == segment,
            final(self).wf(),
            final(self).goal() == old(self).goal(),
            final(self).seen() == if old(self).goal().contains(segment@) {
                old(self).seen().insert(segment@)
            } else {
                old(self).seen()
            },
    {
        if contains_name(&self.targets, &segment) {
            if !contains_name(&self.mentioned, &segment) {
                let ghost before = self.mentioned.deep_view();
                self.mentioned.push(segment.clone());
                proof {
                    let after = self.mentioned.deep_view();
                    assert(after =~= before.push(segment@));
                    assert forall|t: Seq<char>| after.contains(t) <==> before.contains(t) || t
                        == segment@ by {
                        if before.contains(t) {
                            let k = choose|k: int| 0 <= k < before.len() && before[k] == t;
                            assert(after[k] == t);
                        }
                        if t == segment@ {
                            assert(after[before.len() as int] == t);
                        }
                    }
                    assert(self.seen() =~= old(self).seen().insert(segment@));
                }
            } else {
                assert(self.seen() =~= old(self).seen().insert(segment@));
            }
        }
        segment
    }

    /// Shows the collector every path segment of `ty`.
    fn scan_type(&mut self, ty: &TypeExpr)
        requires
            old(self).wf(),
        ensures
            final(self).wf(),
            final(self).goal() == old(self).goal(),
            final(self).seen() == old(self).seen().union(
                mentioned_in_type(ty@, old(self).goal()),
            ),
        decreases ty,
    {
        let ghost goal = self.goal();
        let ghost start = self.seen();
        match &ty.head {
            TypeHead::Path(segments) => {
                let mut i: usize = 0;
                while i < segments.len()
                    invariant
                        i <= segments.len(),
                        self.wf(),
                        self.goal() == old(self).goal(),
                        goal == old(self).goal(),
                        start == old(self).seen(),
                        forall|t: Seq<char>| #[trigger]
                            self.seen().contains(t) <==> start.contains(t) || (goal.contains(t)
                                && among_first(segments.deep_view(), i as int, t)),
                    decreases segments.len() - i,
                {
                    let ghost before = self.seen();
                    let _ = self.fold_path_segment(segments[i].clone());
                    proof {
                        let names = segments.deep_view();
                        assert(names[i as int] == segments@[i as int]@);
                        assert forall|t: Seq<char>| #[trigger]
                            self.seen().contains(t) <==> start.contains(t) || (goal.contains(t)
                                && among_first(names, i + 1, t)) by {
                            lemma_among_first_step(names, i as int, t);
                            assert(before.contains(t) <==> start.contains(t) || (goal.contains(t)
                                && among_first(names, i as int, t)));
                        }
                    }
                    i += 1;
                }
            },
            _ => {},
        }
        assert forall|t: Seq<char>| #[trigger]
            self.seen().contains(t) <==> start.contains(t) || (goal.contains(t)
                && mentioned_before(ty@, 0, t)) by {
            if let TypeHead::Path(segments) = ty.head {
                assert(among_first(segments.deep_view(), segments.len() as int, t)
                    <==> segments.deep_view().contains(t));
            }
        }
        let mut j: usize = 0;
        while j < ty.args.len()
            invariant
                j <= ty.args.len(),
                self.wf(),
                self.goal() == old(self).goal(),
                goal == old(self).goal(),
                start == old(self).seen(),
                forall|t: Seq<char>| #[trigger]
                    self.seen().contains(t) <==> start.contains(t) || (goal.contains(t)
                        && mentioned_before(ty@, j as int, t)),
            decreases ty.args.len() - j,
        {
            let ghost before = self.seen();
            self.scan_type(&ty.args[j]);
            proof {
                assert(ty@.args[j as int] == ty.args@[j as int]@);
                assert forall|t: Seq<char>| #[trigger]
                    self.seen().contains(t) <==> start.contains(t) || (goal.contains(t)
                        && mentioned_before(ty@, j + 1, t)) by {
                    lemma_mentioned_before_step(ty@, j as int, t);
                    assert(before.contains(t) <==> start.contains(t) || (goal.contains(t)
                        && mentioned_before(ty@, j as int, t)));
                }
            }
            j += 1;
        }
        assert(self.seen() =~= start.union(mentioned_in_type(ty@, goal))) by {
            assert forall|t: Seq<char>|
                mentioned_before(ty@, ty.args.len() as int, t) <==> ty@.refers_to(t) by {}
        }
    }

    /// Shows the collector every path segment of `ty`, which comes back
    /// unchanged.
    pub fn fold_type(&mut self, ty: TypeExpr) -> (out: TypeExpr)
        requires
            old(self).wf(),
        ensures
            out == ty,
            final(self).wf(),
            final(self).goal() == old(self).goal(),
            final(self).seen() == old(self).seen().union(
                mentioned_in_type(ty@, old(self).goal()),
            ),
    {
        self.scan_type(&ty);
        ty
    }

    /// Shows the collector every path segment of every field type of
    /// `variant`, which comes back unchanged.
    pub fn fold_variant(&mut self, variant: Variant) -> (out: Variant)
        requires
            old(self).wf(),
        ensures
            out == variant,
            final(self).wf(),
            final(self).goal() == old(self).goal(),
            final(self).seen() == old(self).seen().union(
                mentioned_in_variant(variant@, old(self).goal()),
            ),
    {
        let ghost goal = self.goal();
        let ghost start = self.seen();
        let count = variant.fields.len();
        let mut i: usize = 0;
        while i < count
            invariant
                i <= count,
                count == variant@.fields.fields.len(),
                self.wf(),
                self.goal() == old(self).goal(),
                goal == old(self).goal(),
                start == old(self).seen(),
                forall|t: Seq<char>| #[trigger]
                    self.seen().contains(t) <==> start.contains(t) || (goal.contains(t)
                        && field_mentions_before(variant@.fields, i as int, t)),
            decreases count - i,
        {
            let ghost before = self.seen();
            self.scan_type(variant.fields.ty(i));
            proof {
                assert forall|t: Seq<char>| #[trigger]
                    self.seen().contains(t) <==> start.contains(t) || (goal.contains(t)
                        && field_mentions_before(variant@.fields, i + 1, t)) by {
                    lemma_field_mentions_step(variant@.fields, i as int, t);
                    assert(before.contains(t) <==> start.contains(t) || (goal.contains(t)
                        && field_mentions_before(variant@.fields, i as int, t)));
                }
            }
            i += 1;
        }
        assert(self.seen() =~= start.union(mentioned_in_variant(variant@, goal)));
        variant
    }
}

impl Default for MentionedGenerics {
    fn default() -> (collector: Self)
        ensures
            collector.wf(),
            collector.goal() == Set::<Seq<char>>::empty(),
            collector.seen() == Set::<Seq<char>>::empty(),
    {
        let collector = Self { targets: Vec::new(), mentioned: Vec::new() };
        assert(collector.seen() =~= Set::<Seq<char>>::empty());
        assert(collector.goal() =~= Set::<Seq<char>>::empty());
        collector
    }
}

/// One entry of a field literal: the replacement expression, after the
/// field's name where the fields are named.
pub open spec fn field_entry(shape: Shape, accessor: Seq<char>, expr: Seq<char>) -> Seq<char> {
    if shape == Shape::Named {
        accessor + ": "@ + expr
    } else {
        expr
    }
}

/// The entries of a field literal, one for each field, in order.
pub open spec fn field_entries(fields: FieldsView, exprs: Seq<Seq<char>>) -> Seq<Seq<char>> {
    Seq::new(
        fields.fields.len(),
        |i: int| field_entry(fields.shape, fields.fields[i].accessor, exprs[i]),
    )
}

/// `entries` in the brackets of `shape`: braces for named fields,
/// parentheses for positional ones, nothing at all for none.
pub open spec fn bracketed(shape: Shape, entries: Seq<Seq<char>>) -> Seq<char> {
    match shape {
        Shape::Named => " { "@ + joined(entries, ", "@) + " }"@,
        Shape::Unnamed => "("@ + joined(entries, ", "@) + ")"@,
        Shape::Unit => Seq::empty(),
    }
}

/// The field literal of the shape of `fields` in which the field at each
/// position is given by the expression of `exprs` at that position.
pub open spec fn field_literal(fields: FieldsView, exprs: Seq<Seq<char>>) -> Seq<char> {
    bracketed(fields.shape, field_entries(fields, exprs))
}

/// Writes `entries` in the brackets of `shape`.
pub fn write_bracketed(shape: Shape, entries: &Vec<String>) -> (out: String)
    ensures
        out@ == bracketed(shape, entries.deep_view()),
{
    match shape {
        Shape::Named => {
            let mut out = String::from_str(" { ");
            out.append(join(entries, ", ").as_str());
            out.append(" }");
            out
        },
        Shape::Unnamed => {
            let mut out = String::from_str("(");
            out.append(join(entries, ", ").as_str());
            out.append(")");
            out
        },
        Shape::Unit => String::new(),
    }
}

/// Whether `f` may be called on `field`.
pub open spec fn accepts<F: Fn(&String, &TypeExpr) -> String>(f: F, field: FieldView) -> bool {
    forall|accessor: String, ty: TypeExpr|
        accessor@ == field.accessor && ty@ == field.ty ==> #[trigger] call_requires(
            f,
            (&accessor, &ty),
        )
}

/// Whether `expr` is a text that `f` may give for `field`.
pub open spec fn transforms<F: Fn(&String, &TypeExpr) -> String>(
    f: F,
    field: FieldView,
    expr: Seq<char>,
) -> bool {
    exists|accessor: String, ty: TypeExpr, out: String|
        accessor@ == field.accessor && ty@ == field.ty && out@ == expr && #[trigger] call_ensures(
            f,
            (&accessor, &ty),
            out,
        )
}

/// Whether `exprs` holds, for each field in order, a text that `f` may give
/// for it.
pub open spec fn mapping<F: Fn(&String, &TypeExpr) -> String>(
    f: F,
    fields: FieldsView,
    exprs: Seq<Seq<char>>,
) -> bool {
    &&& exprs.len() == fields.fields.len()
    &&& forall|i: int|
        0 <= i < fields.fields.len() ==> transforms(f, #[trigger] fields.fields[i], exprs[i])
}

/// Rebuilds a field literal of the shape of `fields`, with each field
/// replaced by what `f` gives for it. Order and the tie between a name or
/// position and its field are kept.
pub fn map_fields<F>(fields: &Fields, f: F) -> (out: String) where
    F: Fn(&String, &TypeExpr) -> String,

    requires
        forall|i: int| 0 <= i < fields@.fields.len() ==> accepts(f, #[trigger] fields@.fields[i]),
    ensures
        exists|exprs: Seq<Seq<char>>|
            mapping(f, fields@, exprs) && out@ == #[trigger] field_literal(fields@, exprs),
{
    let count = fields.len();
    let shape = fields.shape();
    let mut entries: Vec<String> = Vec::new();
    let ghost mut exprs: Seq<Seq<char>> = Seq::empty();
    let mut i: usize = 0;
    while i < count
        invariant
            i <= count,
            count == fields@.fields.len(),
            shape == fields@.shape,
            entries.len() == i,
            exprs.len() == i,
            forall|k: int| 0 <= k < count ==> accepts(f, #[trigger] fields@.fields[k]),
            forall|k: int| 0 <= k < i ==> transforms(f, #[trigger] fields@.fields[k], exprs[k]),
            forall|k: int|
                0 <= k < i ==> (#[trigger] entries@[k])@ == field_entry(
                    shape,
                    fields@.fields[k].accessor,
                    exprs[k],
                ),
        decreases count - i,
    {
        let accessor = fields.accessor(i);
        let ty = fields.ty(i);
        assert(accepts(f, fields@.fields[i as int]));
        let expr = f(&accessor, ty);
        proof {
            assert(transforms(f, fields@.fields[i as int], expr@));
            exprs = exprs.push(expr@);
        }
        let entry = match shape {
            Shape::Named => {
                let mut entry = accessor;
                entry.append(": ");
                entry.append(expr.as_str());
                entry
            },
            _ => expr,
        };
        entries.push(entry);
        i += 1;
    }
    proof {
        assert(entries.deep_view() =~= field_entries(fields@, exprs));
        assert(mapping(f, fields@, exprs));
    }
    let out = write_bracketed(shape, &entries);
    assert(out@ == field_literal(fields@, exprs));
    out
}

} // verus!

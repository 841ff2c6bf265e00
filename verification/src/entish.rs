//! The compiler proper: capability requests, node compilation, and the
//! builder that turns a schema into generated items.

use crate::compile::{
    compile_node, compiled_node, compiled_nodes, compiled_nodes_view, compiled_tree, node_names,
    sum_variants, write_interface, write_sum_into_option, write_sum_into_result, write_sum_map,
    write_sum_map_owned, CompiledNode, CompiledTree, CompiledTreeView,
};
use crate::emit::{write_sum_definition, write_sum_variant, CHILD, SELF};
use crate::schema::{
    clone_params, declare_params, params_view, write_applied, Fields, FieldsView, GenericParam,
    ParamView, Variant, VariantView,
};
use crate::text::{contains_name, join, joined};
use crate::tokens::lex;
use crate::ty::{angle, clone_types, types_view, FieldKind, TypeExpr, TypeView};
use crate::utils::{mentioned_in_variant, FindIdent, MentionedGenerics, ReplaceIdent};
use proc_macro2::{LexError, TokenStream};
use vstd::prelude::*;

verus! {

/// Whether `ty` is the single identifier `ident` and nothing else.
pub fn is_ident(ty: &TypeExpr, ident: &String) -> (same: bool)
    ensures
        same == ty@.is_bare(ident@),
{
    ty.is_bare(ident)
}

/// Whether `ident` occurs as an identifier anywhere in `ty`, at any depth.
pub fn contains_ident(ty: &TypeExpr, ident: &String) -> (found: bool)
    ensures
        found == ty@.mentions(ident@),
{
    let mut find_ident = FindIdent::new(ident.clone());
    let _ = find_ident.fold_type(ty.clone());
    find_ident.matched()
}

/// How a field of type `ty` relates to the recursive position `marker`: it is
/// the marker, it nests the marker inside another type, or it is a leaf.
pub fn classify(ty: &TypeExpr, marker: &String) -> (kind: FieldKind)
    ensures
        kind == ty@.kind(marker@),
{
    if is_ident(ty, marker) {
        FieldKind::Child
    } else if contains_ident(ty, marker) {
        FieldKind::Container
    } else {
        FieldKind::Leaf
    }
}

impl ParamView {
    /// The parameter with one more bound, where it is a type parameter.
    pub open spec fn with_bound(self, bound: TypeView) -> ParamView {
        match self {
            ParamView::Type { ident, bounds } => ParamView::Type {
                ident,
                bounds: bounds.push(bound),
            },
            other => other,
        }
    }
}

/// `params` with `bound` added to each type parameter that `selected` picks.
/// A position beyond the end of `selected` is not picked.
pub open spec fn bounded(params: Seq<ParamView>, selected: Seq<bool>, bound: TypeView) -> Seq<
    ParamView,
> {
    Seq::new(
        params.len(),
        |i: int|
            if i < selected.len() && selected[i] {
                params[i].with_bound(bound)
            } else {
                params[i]
            },
    )
}

/// Adds `bound` to every type parameter of `params` at a position that
/// `selected` picks.
pub fn add_bound_to_all(params: &mut Vec<GenericParam>, selected: &Vec<bool>, bound: &TypeExpr)
    ensures
        params_view(final(params)@) == bounded(
            params_view(old(params)@),
            selected@,
            bound@,
        ),
{
    let mut i: usize = 0;
    while i < params.len()
        invariant
            i <= params.len(),
            params.len() == old(params).len(),
            forall|k: int|
                0 <= k < i ==> (#[trigger] params@[k])@ == bounded(
                    params_view(old(params)@),
                    selected@,
                    bound@,
                )[k],
            forall|k: int| i <= k < params.len() ==> (#[trigger] params@[k]) == old(params)@[k],
        decreases params.len() - i,
    {
        if i < selected.len() && selected[i] {
            let updated = match &params[i] {
                GenericParam::Type { ident, bounds } => {
                    let mut extended = clone_types(bounds);
                    extended.push(bound.clone());
                    assert(types_view(extended@) =~= types_view(bounds@).push(bound@));
                    GenericParam::Type { ident: ident.clone(), bounds: extended }
                },
                other => other.clone(),
            };
            params.set(i, updated);
        }
        i += 1;
    }
    assert(params_view(params@) =~= bounded(
        params_view(old(params)@),
        selected@,
        bound@,
    ));
}

/// Picks every parameter of `params` but the type parameter named `ident`:
/// the answer holds, for each position, whether the parameter there is kept.
pub fn all_but_ident(params: &Vec<GenericParam>, ident: &String) -> (kept: Vec<bool>)
    ensures
        kept@.len() == params@.len(),
        forall|i: int|
            0 <= i < params@.len() ==> #[trigger] kept@[i] == !params@[i]@.is_type_named(ident@),
{
    let mut kept: Vec<bool> = Vec::new();
    let mut i: usize = 0;
    while i < params.len()
        invariant
            i <= params.len(),
            kept.len() == i,
            forall|k: int|
                0 <= k < i ==> #[trigger] kept@[k] == !params@[k]@.is_type_named(ident@),
        decreases params.len() - i,
    {
        let keep = match &params[i] {
            GenericParam::Type { ident: name, .. } => {
                if *name == *ident {
                    false
                } else {
                    true
                }
            },
            _ => true,
        };
        kept.push(keep);
        i += 1;
    }
    kept
}

/// The predicate that asks `Clone` of the type parameter `ident`.
pub open spec fn clone_predicate(ident: Seq<char>) -> Seq<char> {
    ident + ": Clone"@
}

/// One `Clone` predicate for each type parameter of `params` but the
/// recursive position, in order.
pub open spec fn clone_predicates(params: Seq<ParamView>) -> Seq<Seq<char>>
    decreases params.len(),
{
    if params.len() == 0 {
        Seq::empty()
    } else {
        let before = clone_predicates(params.drop_last());
        match params.last() {
            ParamView::Type { ident, .. } => if ident != CHILD@ {
                before.push(clone_predicate(ident))
            } else {
                before
            },
            _ => before,
        }
    }
}

/// The `where` clause that asks `Clone` of every type parameter but the
/// recursive position; none where there is no such parameter.
pub open spec fn where_clause(params: Seq<ParamView>) -> Option<Seq<char>> {
    if clone_predicates(params).len() == 0 {
        None
    } else {
        Some("where "@ + joined(clone_predicates(params), ", "@))
    }
}

/// Writes the `where` clause for `params`: see [`where_clause`].
pub fn where_clause_for_generics(params: &Vec<GenericParam>) -> (clause: Option<String>)
    ensures
        clause is Some == where_clause(params_view(params@)) is Some,
        clause matches Some(text) ==> where_clause(params_view(params@)) == Some(
            text@,
        ),
{
    let ghost views = params_view(params@);
    let mut where_predicates: Vec<String> = Vec::new();
    let mut i: usize = 0;
    while i < params.len()
        invariant
            i <= params.len(),
            views == params_view(params@),
            where_predicates.deep_view() == clone_predicates(views.take(i as int)),
        decreases params.len() - i,
    {
        let ghost before = where_predicates.deep_view();
        proof {
            assert(views.take(i + 1).drop_last() =~= views.take(i as int));
            assert(views.take(i + 1).last() == params@[i as int]@);
        }
        match &params[i] {
            GenericParam::Type { ident, .. } => {
                if *ident != String::from_str(CHILD) {
                    let mut predicate = ident.clone();
                    predicate.append(": Clone");
                    where_predicates.push(predicate);
                    assert(where_predicates.deep_view() =~= before.push(clone_predicate(ident@)));
                }
            },
            _ => {},
        }
        i += 1;
    }
    assert(views.take(params.len() as int) =~= views);
    if where_predicates.len() > 0 {
        let mut clause = String::from_str("where ");
        clause.append(join(&where_predicates, ", ").as_str());
        Some(clause)
    } else {
        None
    }
}

/// A capability that a schema may request.
#[derive(Clone, Copy, PartialEq, Eq, Structural, Hash, Debug)]
pub enum SupportedDerives {
    /// Unwrap a value of the sum type as one node type.
    TryInto,
    /// Wrap a node as its variant of the sum type.
    From,
    /// Functor map over a borrow.
    MapRef,
    /// Functor map that consumes its subject.
    MapOwned,
    /// Sequence failable children into one failable value.
    IntoResult,
    /// Sequence optional children into one optional value.
    IntoOption,
}

/// The capability that `name` requests, if it requests one.
pub open spec fn capability_named(name: Seq<char>) -> Option<SupportedDerives> {
    if name == "TryInto"@ {
        Some(SupportedDerives::TryInto)
    } else if name == "From"@ {
        Some(SupportedDerives::From)
    } else if name == "Map"@ {
        Some(SupportedDerives::MapRef)
    } else if name == "MapOwned"@ {
        Some(SupportedDerives::MapOwned)
    } else if name == "IntoResult"@ {
        Some(SupportedDerives::IntoResult)
    } else if name == "IntoOption"@ {
        Some(SupportedDerives::IntoOption)
    } else {
        None
    }
}

impl SupportedDerives {
    /// The capability that the bare name `name` requests; none where the
    /// name is not one of the six capability names.
    pub fn try_from(name: &String) -> (capability: Option<Self>)
        ensures
            capability == capability_named(name@),
    {
        if *name == String::from_str("TryInto") {
            Some(Self::TryInto)
        } else if *name == String::from_str("From") {
            Some(Self::From)
        } else if *name == String::from_str("Map") {
            Some(Self::MapRef)
        } else if *name == String::from_str("MapOwned") {
            Some(Self::MapOwned)
        } else if *name == String::from_str("IntoResult") {
            Some(Self::IntoResult)
        } else if *name == String::from_str("IntoOption") {
            Some(Self::IntoOption)
        } else {
            None
        }
    }
}

/// The set of capabilities that one generation call works with.
#[derive(Clone, Copy, Debug)]
pub struct Capabilities {
    try_into: bool,
    from: bool,
    map: bool,
    map_owned: bool,
    into_result: bool,
    into_option: bool,
}

impl View for Capabilities {
    type V = Set<SupportedDerives>;

    closed spec fn view(&self) -> Set<SupportedDerives> {
        Set::new(
            |capability: SupportedDerives|
                match capability {
                    SupportedDerives::TryInto => self.try_into,
                    SupportedDerives::From => self.from,
                    SupportedDerives::MapRef => self.map,
                    SupportedDerives::MapOwned => self.map_owned,
                    SupportedDerives::IntoResult => self.into_result,
                    SupportedDerives::IntoOption => self.into_option,
                },
        )
    }
}

impl Capabilities {
    /// The empty set.
    pub fn new() -> (capabilities: Self)
        ensures
            capabilities@ == Set::<SupportedDerives>::empty(),
    {
        let capabilities = Self {
            try_into: false,
            from: false,
            map: false,
            map_owned: false,
            into_result: false,
            into_option: false,
        };
        assert(capabilities@ =~= Set::<SupportedDerives>::empty());
        capabilities
    }

    /// Adds `capability` to the set.
    pub fn insert(&mut self, capability: SupportedDerives)
        ensures
            final(self)@ == old(self)@.insert(capability),
    {
        match capability {
            SupportedDerives::TryInto => {
                self.try_into = true;
            },
            SupportedDerives::From => {
                self.from = true;
            },
            SupportedDerives::MapRef => {
                self.map = true;
            },
            SupportedDerives::MapOwned => {
                self.map_owned = true;
            },
            SupportedDerives::IntoResult => {
                self.into_result = true;
            },
            SupportedDerives::IntoOption => {
                self.into_option = true;
            },
        }
        assert(self@ =~= old(self)@.insert(capability));
    }

    /// Whether `capability` is in the set.
    pub fn contains(&self, capability: SupportedDerives) -> (present: bool)
        ensures
            present == self@.contains(capability),
    {
        match capability {
            SupportedDerives::TryInto => self.try_into,
            SupportedDerives::From => self.from,
            SupportedDerives::MapRef => self.map,
            SupportedDerives::MapOwned => self.map_owned,
            SupportedDerives::IntoResult => self.into_result,
            SupportedDerives::IntoOption => self.into_option,
        }
    }
}

/// One entry of a capability request list.
#[derive(Debug, PartialEq, Eq)]
pub enum DeriveEntry {
    /// A bare name.
    Name(String),
    /// Anything else: a longer path, a literal, a nested list.
    Other,
}

/// The mathematical value of a [`DeriveEntry`].
pub enum EntryView {
    Name(Seq<char>),
    Other,
}

impl View for DeriveEntry {
    type V = EntryView;

    open spec fn view(&self) -> EntryView {
        match self {
            DeriveEntry::Name(name) => EntryView::Name(name@),
            DeriveEntry::Other => EntryView::Other,
        }
    }
}

impl Clone for DeriveEntry {
    fn clone(&self) -> (copy: Self)
        ensures
            copy@ == self@,
    {
        match self {
            DeriveEntry::Name(name) => DeriveEntry::Name(name.clone()),
            DeriveEntry::Other => DeriveEntry::Other,
        }
    }
}

/// The views of a request list.
pub open spec fn entries_view(entries: Seq<DeriveEntry>) -> Seq<EntryView> {
    Seq::new(entries.len(), |i: int| entries[i]@)
}

/// Why a schema cannot be compiled.
#[derive(Debug, PartialEq, Eq)]
pub enum GenerationError {
    /// The request list names a capability that does not exist.
    UnsupportedCapability(String),
    /// The request list holds an entry that is no bare name.
    NonIdentifierEntry,
    /// The generated source text is not made of Rust tokens. This comes of
    /// a schema whose names or opaque type texts are not.
    Unlexable,
}

/// The mathematical value of a [`GenerationError`].
pub enum ErrorView {
    UnsupportedCapability(Seq<char>),
    NonIdentifierEntry,
    Unlexable,
}

impl View for GenerationError {
    type V = ErrorView;

    open spec fn view(&self) -> ErrorView {
        match self {
            GenerationError::UnsupportedCapability(name) => ErrorView::UnsupportedCapability(
                name@,
            ),
            GenerationError::NonIdentifierEntry => ErrorView::NonIdentifierEntry,
            GenerationError::Unlexable => ErrorView::Unlexable,
        }
    }
}

impl ErrorView {
    /// The diagnostic for the error.
    pub open spec fn message(self) -> Seq<char> {
        match self {
            ErrorView::UnsupportedCapability(name) => "unsupported capability: "@ + name,
            ErrorView::NonIdentifierEntry => "only bare capability names allowed"@,
            ErrorView::Unlexable => "the generated source is not made of Rust tokens"@,
        }
    }
}

impl GenerationError {
    /// The diagnostic for the error. For an unsupported capability it names
    /// the capability.
    pub fn message(&self) -> (text: String)
        ensures
            text@ == self@.message(),
    {
        match self {
            GenerationError::UnsupportedCapability(name) => {
                let mut text = String::from_str("unsupported capability: ");
                text.append(name.as_str());
                text
            },
            GenerationError::NonIdentifierEntry => String::from_str(
                "only bare capability names allowed",
            ),
            GenerationError::Unlexable => String::from_str(
                "the generated source is not made of Rust tokens",
            ),
        }
    }
}

impl EntryView {
    /// The error that the entry stands for, where it requests no capability.
    pub open spec fn fault(self) -> Option<ErrorView> {
        match self {
            EntryView::Name(name) => if capability_named(name) is Some {
                None
            } else {
                Some(ErrorView::UnsupportedCapability(name))
            },
            EntryView::Other => Some(ErrorView::NonIdentifierEntry),
        }
    }

    /// Whether the entry requests `capability`.
    pub open spec fn requests(self, capability: SupportedDerives) -> bool {
        self matches EntryView::Name(name) && capability_named(name) == Some(capability)
    }
}

/// The position of the first entry that requests no capability, or the
/// length of the list where every entry requests one.
pub open spec fn first_fault(entries: Seq<EntryView>) -> int
    decreases entries.len(),
{
    if entries.len() == 0 {
        0
    } else if entries[0].fault() is Some {
        0
    } else {
        1 + first_fault(entries.skip(1))
    }
}

/// The capabilities that the entries request.
pub open spec fn requested(entries: Seq<EntryView>) -> Set<SupportedDerives> {
    Set::new(
        |capability: SupportedDerives|
            exists|i: int| 0 <= i < entries.len() && (#[trigger] entries[i]).requests(capability),
    )
}

/// What a request list comes to: the set of capabilities that it names, or
/// the error of its first entry that names none.
pub open spec fn request_outcome(entries: Seq<EntryView>) -> Result<
    Set<SupportedDerives>,
    ErrorView,
> {
    if first_fault(entries) < entries.len() {
        Err(entries[first_fault(entries)].fault()->Some_0)
    } else {
        Ok(requested(entries))
    }
}

/// The first fault lies in the list or at its end; before it no entry is
/// at fault, and the entry at it is.
pub proof fn lemma_first_fault(entries: Seq<EntryView>)
    ensures
        0 <= first_fault(entries) <= entries.len(),
        forall|i: int| 0 <= i < first_fault(entries) ==> (#[trigger] entries[i]).fault() is None,
        first_fault(entries) < entries.len() ==> entries[first_fault(entries)].fault() is Some,
    decreases entries.len(),
{
    if entries.len() > 0 && entries[0].fault() is None {
        let rest = entries.skip(1);
        lemma_first_fault(rest);
        assert forall|i: int| 0 <= i < first_fault(entries) implies (#[trigger] entries[i]).fault()
            is None by {
            if i > 0 {
                assert(rest[i - 1] == entries[i]);
            }
        }
        if first_fault(entries) < entries.len() {
            assert(rest[first_fault(rest)] == entries[first_fault(entries)]);
        }
    }
}

/// A position that holds a fault and has none before it is the first fault.
pub proof fn lemma_first_fault_is(entries: Seq<EntryView>, at: int)
    requires
        0 <= at <= entries.len(),
        forall|i: int| 0 <= i < at ==> (#[trigger] entries[i]).fault() is None,
        at < entries.len() ==> entries[at].fault() is Some,
    ensures
        first_fault(entries) == at,
    decreases entries.len(),
{
    if entries.len() > 0 && at > 0 {
        let rest = entries.skip(1);
        assert(entries[0].fault() is None);
        assert forall|i: int| 0 <= i < at - 1 implies (#[trigger] rest[i]).fault() is None by {
            assert(rest[i] == entries[i + 1]);
        }
        if at - 1 < rest.len() {
            assert(rest[at - 1] == entries[at]);
        }
        lemma_first_fault_is(rest, at - 1);
    }
}

/// Reads a capability request list. Every entry must be one of the six
/// capability names; the first entry that is not decides the error.
pub fn parse_derives(entries: &Vec<DeriveEntry>) -> (outcome: Result<Capabilities, GenerationError>)
    ensures
        match outcome {
            Ok(capabilities) => request_outcome(entries_view(entries@)) == Ok::<
                Set<SupportedDerives>,
                ErrorView,
            >(capabilities@),
            Err(error) => request_outcome(entries_view(entries@)) == Err::<
                Set<SupportedDerives>,
                ErrorView,
            >(error@),
        },
{
    let ghost views = entries_view(entries@);
    let mut derives = Capabilities::new();
    let mut i: usize = 0;
    while i < entries.len()
        invariant
            i <= entries.len(),
            views == entries_view(entries@),
            forall|k: int| 0 <= k < i ==> (#[trigger] views[k]).fault() is None,
            forall|capability: SupportedDerives| #[trigger]
                derives@.contains(capability) <==> exists|k: int|
                    0 <= k < i && (#[trigger] views[k]).requests(capability),
        decreases entries.len() - i,
    {
        match &entries[i] {
            DeriveEntry::Name(name) => {
                match SupportedDerives::try_from(name) {
                    Some(derive) => {
                        let ghost before = derives@;
                        derives.insert(derive);
                        proof {
                            assert(views[i as int].requests(derive));
                            assert forall|capability: SupportedDerives| #[trigger]
                                derives@.contains(capability) <==> exists|k: int|
                                    0 <= k < i + 1 && (#[trigger] views[k]).requests(
                                        capability,
                                    ) by {
                                if before.contains(capability) {
                                    let k = choose|k: int|
                                        0 <= k < i && (#[trigger] views[k]).requests(capability);
                                    assert(0 <= k < i + 1 && views[k].requests(capability));
                                }
                                if exists|k: int|
                                    0 <= k < i + 1 && (#[trigger] views[k]).requests(capability) {
                                    let k = choose|k: int|
                                        0 <= k < i + 1 && (#[trigger] views[k]).requests(
                                            capability,
                                        );
                                    if k < i {
                                        assert(0 <= k < i && views[k].requests(capability));
                                    }
                                }
                            }
                        }
                    },
                    None => {
                        proof {
                            lemma_first_fault_is(views, i as int);
                        }
                        return Err(GenerationError::UnsupportedCapability(name.clone()));
                    },
                }
            },
            DeriveEntry::Other => {
                proof {
                    lemma_first_fault_is(views, i as int);
                }
                return Err(GenerationError::NonIdentifierEntry);
            },
        }
        i += 1;
    }
    proof {
        lemma_first_fault_is(views, entries.len() as int);
        assert(derives@ =~= requested(views));
    }
    Ok(derives)
}

/// The parameters that a node type declares: of `params`, in their order,
/// each type parameter whose name is in `keep`, stripped of its bounds.
pub open spec fn closure_params(params: Seq<ParamView>, keep: Set<Seq<char>>) -> Seq<ParamView>
    decreases params.len(),
{
    if params.len() == 0 {
        Seq::empty()
    } else {
        let before = closure_params(params.drop_last(), keep);
        match params.last() {
            ParamView::Type { ident, .. } => if keep.contains(ident) {
                before.push(ParamView::plain(ident))
            } else {
                before
            },
            _ => before,
        }
    }
}

/// A standalone node type: one variant's fields under the variant's name,
/// with the generic parameters that those fields need.
#[derive(Debug, PartialEq, Eq)]
pub struct Node {
    pub ident: String,
    pub generics: Vec<GenericParam>,
    pub fields: Fields,
}

/// The mathematical value of a [`Node`].
pub struct NodeView {
    pub ident: Seq<char>,
    pub params: Seq<ParamView>,
    pub fields: FieldsView,
}

impl View for Node {
    type V = NodeView;

    open spec fn view(&self) -> NodeView {
        NodeView {
            ident: self.ident@,
            params: params_view(self.generics@),
            fields: self.fields@,
        }
    }
}

/// The node that a variant compiles to, given the parameters of the schema
/// and the names that count as its generic parameters.
pub open spec fn node_of(params: Seq<ParamView>, variant: VariantView, targets: Set<Seq<char>>)
    -> NodeView {
    NodeView {
        ident: variant.ident,
        params: closure_params(params, mentioned_in_variant(variant, targets)),
        fields: variant.fields,
    }
}

/// Where the recursive position is the last parameter of the schema and
/// counts among what the node needs, it is the last parameter of the node.
pub proof fn lemma_marker_is_last(params: Seq<ParamView>, keep: Set<Seq<char>>)
    requires
        params.len() > 0,
        params.last() == ParamView::plain(CHILD@),
        keep.contains(CHILD@),
    ensures
        closure_params(params, keep).len() > 0,
        closure_params(params, keep).last() == ParamView::plain(CHILD@),
{
}

/// Every parameter that a node declares is a type parameter without bounds
/// whose name is in `keep` and names a type parameter of the schema.
pub proof fn lemma_closure_declares_only_kept(
    params: Seq<ParamView>,
    keep: Set<Seq<char>>,
    at: int,
)
    requires
        0 <= at < closure_params(params, keep).len(),
    ensures
        closure_params(params, keep)[at] == ParamView::plain(
            closure_params(params, keep)[at].ident(),
        ),
        keep.contains(closure_params(params, keep)[at].ident()),
        exists|i: int|
            0 <= i < params.len() && (#[trigger] params[i]).is_type_named(
                closure_params(params, keep)[at].ident(),
            ),
    decreases params.len(),
{
    if params.len() > 0 {
        let before = closure_params(params.drop_last(), keep);
        if at < before.len() {
            lemma_closure_declares_only_kept(params.drop_last(), keep, at);
            let name = before[at].ident();
            let i = choose|i: int|
                0 <= i < params.drop_last().len() && (#[trigger] params.drop_last()[i]).is_type_named(
                    name,
                );
            assert(params[i].is_type_named(name));
        } else {
            assert(params[params.len() - 1].is_type_named(
                closure_params(params, keep)[at].ident(),
            ));
        }
    }
}

/// Every type parameter of the schema whose name is in `keep` is declared
/// by the node.
pub proof fn lemma_closure_declares_all_kept(
    params: Seq<ParamView>,
    keep: Set<Seq<char>>,
    at: int,
)
    requires
        0 <= at < params.len(),
        params[at] is Type,
        keep.contains(params[at].ident()),
    ensures
        closure_params(params, keep).contains(ParamView::plain(params[at].ident())),
    decreases params.len(),
{
    let all = closure_params(params, keep);
    let before = closure_params(params.drop_last(), keep);
    if at < params.len() - 1 {
        lemma_closure_declares_all_kept(params.drop_last(), keep, at);
        let wanted = ParamView::plain(params[at].ident());
        let k = choose|k: int| 0 <= k < before.len() && before[k] == wanted;
        assert(all[k] == wanted);
    } else {
        assert(all[all.len() - 1] == ParamView::plain(params[at].ident()));
    }
}

/// A node type declares every parameter that it needs: a type parameter of
/// the schema that counts as generic and that some field type of the variant
/// refers to, at any depth, is a parameter of the node.
pub proof fn lemma_mentioned_parameter_is_declared(
    params: Seq<ParamView>,
    variant: VariantView,
    targets: Set<Seq<char>>,
    at: int,
)
    requires
        0 <= at < params.len(),
        params[at] is Type,
        targets.contains(params[at].ident()),
        variant.refers_to(params[at].ident()),
    ensures
        node_of(params, variant, targets).params.contains(ParamView::plain(params[at].ident())),
{
    lemma_closure_declares_all_kept(params, mentioned_in_variant(variant, targets), at);
}

/// A node type never declares a parameter that its fields do not mention:
/// where no field type of the variant refers to `name`, no parameter of the
/// node is called `name`.
pub proof fn lemma_unmentioned_parameter_is_pruned(
    params: Seq<ParamView>,
    variant: VariantView,
    targets: Set<Seq<char>>,
    name: Seq<char>,
)
    requires
        !variant.refers_to(name),
    ensures
        forall|i: int|
            0 <= i < node_of(params, variant, targets).params.len() ==> (#[trigger] node_of(
                params,
                variant,
                targets,
            ).params[i]).ident() != name,
{
    let keep = mentioned_in_variant(variant, targets);
    assert forall|i: int| 0 <= i < closure_params(params, keep).len() implies (
    #[trigger] closure_params(params, keep)[i]).ident() != name by {
        lemma_closure_declares_only_kept(params, keep, i);
    }
}

/// Compiles one variant into its node type.
#[derive(Debug)]
pub struct NodeBuilder {
    generics: Vec<GenericParam>,
    variant: Variant,
    relevant: MentionedGenerics,
}

impl NodeBuilder {
    /// The generic parameters of the schema.
    pub closed spec fn params(&self) -> Seq<ParamView> {
        params_view(self.generics@)
    }

    /// The variant that is compiled.
    pub closed spec fn subject(&self) -> VariantView {
        self.variant@
    }

    /// The names that count as generic parameters of the variant.
    pub closed spec fn targets(&self) -> Set<Seq<char>> {
        self.relevant.goal()
    }

    /// The builder has looked at nothing yet.
    pub closed spec fn wf(&self) -> bool {
        self.relevant.wf() && self.relevant.seen() == Set::<Seq<char>>::empty()
    }

    /// A builder for `variant` under the parameters `generics`, with no name
    /// counted as a generic parameter yet.
    pub fn from_variant(generics: &Vec<GenericParam>, variant: &Variant) -> (builder: Self)
        ensures
            builder.wf(),
            builder.params() == params_view(generics@),
            builder.subject() == variant@,
            builder.targets() == Set::<Seq<char>>::empty(),
    {
        Self {
            generics: clone_params(generics),
            variant: variant.clone(),
            relevant: MentionedGenerics::default(),
        }
    }

    /// Counts each of `names` as a generic parameter of the variant.
    pub fn extend_closure(&mut self, names: &Vec<String>) -> (this: &mut Self)
        requires
            old(self).wf(),
        ensures
            this.wf(),
            this.params() == old(self).params(),
            this.subject() == old(self).subject(),
            this.targets() == old(self).targets().union(names.deep_view().to_set()),
            *final(self) == *final(this),
    {
        self.relevant.extend_targets(names);
        self
    }

    /// The node type of the variant. It has the variant's name and fields.
    /// Of the schema's parameters it declares, in their order and without
    /// bounds, the type parameters that count as generic parameters and that
    /// some field type mentions.
    pub fn generate(self) -> (node: Node)
        requires
            self.wf(),
        ensures
            node@ == node_of(self.params(), self.subject(), self.targets()),
    {
        let ghost keep = mentioned_in_variant(self.subject(), self.targets());
        let ghost all = self.params();
        let NodeBuilder { generics, variant, relevant } = self;
        let mut relevant = relevant;
        let variant = relevant.fold_variant(variant);
        let closure = relevant.into_mentioned();
        assert(closure.deep_view().to_set() =~= keep);
        let mut params: Vec<GenericParam> = Vec::new();
        let mut i: usize = 0;
        while i < generics.len()
            invariant
                i <= generics.len(),
                all == params_view(generics@),
                closure.deep_view().to_set() == keep,
                params_view(params@) == closure_params(all.take(i as int), keep),
            decreases generics.len() - i,
        {
            let ghost before = params_view(params@);
            proof {
                assert(all.take(i + 1).drop_last() =~= all.take(i as int));
                assert(all.take(i + 1).last() == generics@[i as int]@);
            }
            match &generics[i] {
                GenericParam::Type { ident, .. } => {
                    if contains_name(&closure, ident) {
                        params.push(GenericParam::plain(ident.clone()));
                        assert(params_view(params@) =~= before.push(ParamView::plain(ident@)));
                    }
                },
                _ => {},
            }
            i += 1;
        }
        assert(all.take(generics.len() as int) =~= all);
        Node { ident: variant.ident, generics: params, fields: variant.fields }
    }
}

/// The names of the type parameters among `params`, in order.
pub open spec fn type_idents(params: Seq<ParamView>) -> Seq<Seq<char>>
    decreases params.len(),
{
    if params.len() == 0 {
        Seq::empty()
    } else {
        let before = type_idents(params.drop_last());
        match params.last() {
            ParamView::Type { ident, .. } => before.push(ident),
            _ => before,
        }
    }
}

/// What a schema says before its variants: the name of the sum type, the
/// capability request list and the generic parameters.
#[derive(Debug, PartialEq, Eq)]
pub struct SchemaHeader {
    pub ident: String,
    pub derives: Vec<DeriveEntry>,
    pub generics: Vec<GenericParam>,
}

/// The mathematical value of a schema as a builder holds it.
pub struct SchemaView {
    /// The name of the sum type.
    pub ident: Seq<char>,
    /// The parameters of the sum type; the recursive position is the last.
    pub params: Seq<ParamView>,
    /// The capability request list.
    pub entries: Seq<EntryView>,
    /// The variants, with the recursive position written as such.
    pub variants: Seq<VariantView>,
}

impl SchemaView {
    /// The names of the variants, in order.
    pub open spec fn names(self) -> Seq<Seq<char>> {
        Seq::new(self.variants.len(), |i: int| self.variants[i].ident)
    }

    /// The node type of each variant, in order.
    pub open spec fn nodes(self) -> Seq<NodeView> {
        Seq::new(
            self.variants.len(),
            |i: int| node_of(self.params, self.variants[i], type_idents(self.params).to_set()),
        )
    }
}

/// Collects a schema variant by variant and compiles it.
#[derive(Debug)]
pub struct EntishBuilder {
    ident: String,
    attributes: Vec<DeriveEntry>,
    generics: Vec<GenericParam>,
    nodes: Vec<NodeBuilder>,
}

impl View for EntishBuilder {
    type V = SchemaView;

    closed spec fn view(&self) -> SchemaView {
        SchemaView {
            ident: self.ident@,
            params: params_view(self.generics@),
            entries: entries_view(self.attributes@),
            variants: Seq::new(self.nodes@.len(), |i: int| self.nodes@[i].subject()),
        }
    }
}

/// A variant as `add_node` holds it speaks of the whole tree nowhere: no
/// field type mentions the name that stands for it, at any depth, and the
/// variant is not called by it.
pub proof fn lemma_added_node_forgets_self(variant: VariantView)
    ensures
        variant.renamed(SELF@, CHILD@).ident != SELF@,
        forall|i: int|
            0 <= i < variant.fields.fields.len() ==> !(#[trigger] variant.renamed(
                SELF@,
                CHILD@,
            ).fields.fields[i]).ty.mentions(SELF@),
{
    reveal_strlit("Self");
    reveal_strlit("Child");
    assert(SELF@.len() == 4);
    assert(CHILD@.len() == 5);
    crate::utils::lemma_renamed_variant_forgets(variant, SELF@, CHILD@);
}

/// What a generation call owes for the schema `schema`: the error of the
/// request list, or the compilation under the capabilities that it names.
pub open spec fn generation_outcome(schema: SchemaView) -> Result<
    CompiledTreeView,
    ErrorView,
> {
    match request_outcome(schema.entries) {
        Ok(derives) => Ok(compiled_tree(schema.ident, schema.params, schema.nodes(), derives)),
        Err(error) => Err(error),
    }
}

/// Turns what the lexer answered into what a generation call answers: the
/// tokens, or the error that says that the source could not be lexed.
pub fn tokens_or_error(outcome: Result<TokenStream, LexError>) -> (answer: Result<
    TokenStream,
    GenerationError,
>)
    ensures
        match outcome {
            Ok(tokens) => answer == Ok::<TokenStream, GenerationError>(tokens),
            Err(_) => answer matches Err(error) && error@ == ErrorView::Unlexable,
        },
{
    match outcome {
        Ok(tokens) => Ok(tokens),
        Err(_) => Err(GenerationError::Unlexable),
    }
}

impl EntishBuilder {
    /// Every variant is held under the parameters of the schema, with the
    /// names of its type parameters as what counts as generic, and no two
    /// variants have one name.
    pub closed spec fn wf(&self) -> bool {
        &&& self@.names().no_duplicates()
        &&& forall|i: int|
            0 <= i < self.nodes@.len() ==> {
                &&& (#[trigger] self.nodes@[i]).wf()
                &&& self.nodes@[i].params() == self@.params
                &&& self.nodes@[i].targets() == type_idents(self@.params).to_set()
            }
    }

    /// In a well-formed builder no two variants have one name.
    pub proof fn lemma_names_are_unique(&self)
        requires
            self.wf(),
        ensures
            self@.names().no_duplicates(),
    {
    }

    /// A builder for the schema that `input` heads, without variants yet.
    /// The recursive position is added to the parameters as the last.
    pub fn new(input: &SchemaHeader) -> (builder: Self)
        ensures
            builder.wf(),
            builder@ == (SchemaView {
                ident: input.ident@,
                params: params_view(input.generics@).push(ParamView::plain(CHILD@)),
                entries: entries_view(input.derives@),
                variants: Seq::empty(),
            }),
    {
        let ident = input.ident.clone();
        let mut generics = clone_params(&input.generics);
        let ghost before = params_view(generics@);
        generics.push(GenericParam::plain(String::from_str(CHILD)));
        assert(params_view(generics@) =~= before.push(ParamView::plain(CHILD@)));
        let mut attributes: Vec<DeriveEntry> = Vec::new();
        let mut i: usize = 0;
        while i < input.derives.len()
            invariant
                i <= input.derives.len(),
                attributes.len() == i,
                forall|k: int| 0 <= k < i ==> (#[trigger] attributes@[k])@ == input.derives@[k]@,
            decreases input.derives.len() - i,
        {
            attributes.push(input.derives[i].clone());
            i += 1;
        }
        assert(entries_view(attributes@) =~= entries_view(input.derives@));
        let builder = Self { ident, attributes, generics, nodes: Vec::new() };
        assert(builder@.variants =~= Seq::empty());
        builder
    }

    /// The names of the type parameters of the sum type, in order.
    pub fn get_generic_idents(&self) -> (idents: Vec<String>)
        ensures
            idents.deep_view() == type_idents(self@.params),
    {
        let ghost all = params_view(self.generics@);
        let mut idents: Vec<String> = Vec::new();
        let mut i: usize = 0;
        while i < self.generics.len()
            invariant
                i <= self.generics.len(),
                all == params_view(self.generics@),
                idents.deep_view() == type_idents(all.take(i as int)),
            decreases self.generics.len() - i,
        {
            let ghost before = idents.deep_view();
            proof {
                assert(all.take(i + 1).drop_last() =~= all.take(i as int));
                assert(all.take(i + 1).last() == self.generics@[i as int]@);
            }
            match &self.generics[i] {
                GenericParam::Type { ident, .. } => {
                    idents.push(ident.clone());
                    assert(idents.deep_view() =~= before.push(ident@));
                },
                _ => {},
            }
            i += 1;
        }
        assert(all.take(self.generics.len() as int) =~= all);
        idents
    }

    /// Whether a variant of the name `name` has been added.
    pub fn has_node(&self, name: &String) -> (present: bool)
        ensures
            present == self@.names().contains(name@),
    {
        let mut i: usize = 0;
        while i < self.nodes.len()
            invariant
                i <= self.nodes.len(),
                forall|k: int| 0 <= k < i ==> self@.names()[k] != name@,
            decreases self.nodes.len() - i,
        {
            if self.nodes[i].variant.ident == *name {
                assert(self@.names()[i as int] == name@);
                return true;
            }
            i += 1;
        }
        false
    }

    /// Adds `variant` to the schema. Where the variant speaks of the whole
    /// tree, the recursive position takes its place.
    pub fn add_node(&mut self, variant: &Variant) -> (this: &mut Self)
        requires
            old(self).wf(),
            !old(self)@.names().contains(variant@.renamed(SELF@, CHILD@).ident),
        ensures
            this.wf(),
            this@ == (SchemaView {
                variants: old(self)@.variants.push(variant@.renamed(SELF@, CHILD@)),
                ..old(self)@
            }),
            *final(self) == *final(this),
    {
        let ri = ReplaceIdent::replace_with(String::from_str(SELF), String::from_str(CHILD));
        let variant = ri.fold_variant(variant.clone());
        let mut node = NodeBuilder::from_variant(&self.generics, &variant);
        let idents = self.get_generic_idents();
        node.extend_closure(&idents);
        assert(node.targets() =~= type_idents(self@.params).to_set());
        let ghost before = self@;
        self.nodes.push(node);
        proof {
            assert(self@.variants =~= before.variants.push(variant@));
            assert(self@.names() =~= before.names().push(variant@.ident));
            assert forall|i: int, j: int|
                0 <= i < self@.names().len() && 0 <= j < self@.names().len() && i
                    != j implies self@.names()[i] != self@.names()[j] by {
                if i < before.names().len() && j < before.names().len() {
                    assert(before.names()[i] != before.names()[j]);
                } else if i < before.names().len() {
                    assert(before.names().contains(before.names()[i]));
                } else {
                    assert(before.names().contains(before.names()[j]));
                }
            }
        }
        self
    }

    /// Compiles the schema. The request list is read first: an entry that is
    /// no bare name, or a name that is no capability, ends the call with its
    /// error and nothing is compiled.
    pub fn compile(self) -> (outcome: Result<CompiledTree, GenerationError>)
        requires
            self.wf(),
        ensures
            match outcome {
                Ok(tree) => generation_outcome(self@) == Ok::<
                    CompiledTreeView,
                    ErrorView,
                >(tree@),
                Err(error) => generation_outcome(self@) == Err::<
                    CompiledTreeView,
                    ErrorView,
                >(error@),
            },
    {
        let ghost schema = self@;
        let derives = match parse_derives(&self.attributes) {
            Ok(derives) => derives,
            Err(error) => {
                return Err(error);
            },
        };
        let EntishBuilder { ident: c_ident, attributes: _, generics: c_generics, nodes } = self;
        let ghost builders = nodes@;
        let mut nodes = nodes;
        let mut compiled: Vec<CompiledNode> = Vec::new();
        let mut names: Vec<String> = Vec::new();
        let mut variants: Vec<String> = Vec::new();
        while nodes.len() > 0
            invariant
                schema.ident == c_ident@,
                schema.params == params_view(c_generics@),
                schema.variants.len() == builders.len(),
                compiled.len() + nodes.len() == builders.len(),
                names.len() == compiled.len(),
                variants.len() == compiled.len(),
                nodes@ == builders.skip(compiled.len() as int),
                forall|i: int|
                    0 <= i < builders.len() ==> {
                        &&& (#[trigger] builders[i]).wf()
                        &&& builders[i].params() == schema.params
                        &&& builders[i].targets() == type_idents(schema.params).to_set()
                        &&& builders[i].subject() == schema.variants[i]
                    },
                forall|i: int|
                    0 <= i < compiled.len() ==> (#[trigger] compiled@[i])@ == compiled_node(
                        schema.nodes()[i],
                        schema.ident,
                        schema.params,
                        derives@,
                    ),
                forall|i: int|
                    0 <= i < compiled.len() ==> (#[trigger] names@[i])@ == schema.nodes()[i].ident,
                forall|i: int|
                    0 <= i < compiled.len() ==> (#[trigger] variants@[i])@ == sum_variants(
                        schema.nodes(),
                    )[i],
            decreases nodes.len(),
        {
            let ghost at = compiled.len() as int;
            assert(nodes@[0] == builders[at]);
            let builder = nodes.remove(0);
            assert(nodes@ =~= builders.skip(at + 1));
            let node = builder.generate();
            assert(node@ == schema.nodes()[at]);
            names.push(node.ident.clone());
            variants.push(
                write_sum_variant(
                    node.ident.as_str(),
                    write_applied(node.ident.as_str(), &node.generics).as_str(),
                ),
            );
            compiled.push(compile_node(node, &c_ident, &c_generics, &derives));
        }
        proof {
            assert(compiled_nodes_view(compiled@) =~= compiled_nodes(
                schema.nodes(),
                schema.ident,
                schema.params,
                derives@,
            ));
            assert(names.deep_view() =~= node_names(schema.nodes()));
            assert(variants.deep_view() =~= sum_variants(schema.nodes()));
        }
        let map = if derives.contains(SupportedDerives::MapRef) {
            Some(write_sum_map(&c_ident, &c_generics, &names))
        } else {
            None
        };
        let map_owned = if derives.contains(SupportedDerives::MapOwned) {
            Some(write_sum_map_owned(&c_ident, &c_generics, &names))
        } else {
            None
        };
        let into_option = if derives.contains(SupportedDerives::IntoOption) {
            Some(write_sum_into_option(&c_ident, &c_generics, &names))
        } else {
            None
        };
        let into_result = if derives.contains(SupportedDerives::IntoResult) {
            Some(write_sum_into_result(&c_ident, &c_generics, &names))
        } else {
            None
        };
        let interface = write_interface(
            &c_ident,
            &c_generics,
            derives.contains(SupportedDerives::IntoResult),
        );
        let definition = write_sum_definition(
            c_ident.as_str(),
            angle(&declare_params(&c_generics)).as_str(),
            &variants,
        );
        Ok(
            CompiledTree {
                nodes: compiled,
                map,
                map_owned,
                into_option,
                into_result,
                interface,
                definition,
            },
        )
    }

    /// The source text of everything that the schema compiles to.
    pub fn source(self) -> (outcome: Result<String, GenerationError>)
        requires
            self.wf(),
        ensures
            match outcome {
                Ok(text) => generation_outcome(self@) matches Ok(tree) && text@ == tree.source(),
                Err(error) => generation_outcome(self@) == Err::<
                    CompiledTreeView,
                    ErrorView,
                >(error@),
            },
    {
        match self.compile() {
            Ok(tree) => Ok(tree.source()),
            Err(error) => Err(error),
        }
    }

    /// Everything that the schema compiles to, as tokens. A fault of the
    /// request list comes back as its error. Otherwise the source text is
    /// handed to the lexer, and what comes back is its token stream or the
    /// error that says that the text could not be lexed.
    pub fn generate(self) -> (outcome: Result<TokenStream, GenerationError>)
        requires
            self.wf(),
        ensures
            match generation_outcome(self@) {
                Ok(_) => outcome matches Err(error) ==> error@ == ErrorView::Unlexable,
                Err(fault) => outcome matches Err(error) && error@ == fault,
            },
    {
        match self.source() {
            Ok(text) => tokens_or_error(lex(text.as_str())),
            Err(error) => Err(error),
        }
    }
}

} // verus!

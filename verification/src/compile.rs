//! What each capability compiles to, for a node and for the sum type.

use crate::emit::{
    dispatch_body, field_expr, interface_trait, into_option_impl, into_result_impl, inject_impl,
    map_impl, map_owned_impl, node_definition, project_impl, sum_definition, sum_variant,
    write_dispatch_body, write_field_expr, write_inject_impl, write_interface_trait,
    write_into_option_impl, write_into_result_impl, write_map_impl, write_map_owned_impl,
    write_node_definition, write_project_impl, Traversal, CHILD, ERROR, MAP_OUTPUT,
};
use crate::entish::{
    add_bound_to_all, all_but_ident, bounded, classify, where_clause, where_clause_for_generics,
    Capabilities, Node, NodeView, SupportedDerives,
};
use crate::schema::{
    applied, clone_params, declare_params, declared_params, name_params, params_view, used_params,
    write_applied, FieldView, Fields, FieldsView, GenericParam, ParamView, Shape,
};
use crate::text::{join, joined};
use crate::ty::{angle, angled, lifetime_view, types_view, TypeExpr, TypeView};
use crate::utils::{
    bracketed, field_entry, field_literal, map_fields, mapping, renamed_params, transforms,
    write_bracketed, ReplaceIdent,
};
use vstd::prelude::*;

verus! {

/// For each parameter, whether it is anything but the type parameter named
/// `ident`.
pub open spec fn all_but(params: Seq<ParamView>, ident: Seq<char>) -> Seq<bool> {
    Seq::new(params.len(), |i: int| !params[i].is_type_named(ident))
}

/// Whether `params` holds a type parameter named `ident`.
pub open spec fn has_type_param(params: Seq<ParamView>, ident: Seq<char>) -> bool {
    exists|i: int| 0 <= i < params.len() && (#[trigger] params[i]).is_type_named(ident)
}

/// `params`, with the recursive position added at the end where it is not
/// among them.
pub open spec fn with_child(params: Seq<ParamView>) -> Seq<ParamView> {
    if has_type_param(params, CHILD@) {
        params
    } else {
        params.push(ParamView::plain(CHILD@))
    }
}

/// The parameters of a borrowed map over a type with the parameters
/// `params`: each type parameter but the recursive position must outlive the
/// borrow.
pub open spec fn borrowed_params(params: Seq<ParamView>) -> Seq<ParamView> {
    bounded(params, all_but(params, CHILD@), lifetime_view("a"@))
}

/// The `where` clause of `params` with the space that parts it from what
/// stands before, or nothing where there is no clause.
pub open spec fn where_text(params: Seq<ParamView>) -> Seq<char> {
    match where_clause(params) {
        Some(clause) => " "@ + clause,
        None => Seq::empty(),
    }
}

/// The arguments that instantiate `params` with `wrapper` in the recursive
/// position.
pub open spec fn wrapped_args(params: Seq<ParamView>, wrapper: Seq<char>) -> Seq<Seq<char>> {
    Seq::new(
        params.len(),
        |i: int|
            if params[i] == ParamView::plain(CHILD@) {
                wrapper
            } else {
                params[i].used()
            },
    )
}

/// The type `ident` with `wrapper` in the recursive position.
pub open spec fn wrapped_type(ident: Seq<char>, params: Seq<ParamView>, wrapper: Seq<char>) -> Seq<
    char,
> {
    ident + "<"@ + joined(wrapped_args(params, wrapper), ", "@) + ">"@
}

/// The type `ident` applied to `params` and then to `slot`.
pub open spec fn slotted_type(ident: Seq<char>, params: Seq<ParamView>, slot: Seq<char>) -> Seq<
    char,
> {
    ident + "<"@ + joined(used_params(params).push(slot), ", "@) + ">"@
}

/// The declaration of `field` as the schema wrote it: what stood before it,
/// its name where it has one, its type.
pub open spec fn declared_field(shape: Shape, field: FieldView) -> Seq<char> {
    field.prefix + field_entry(shape, field.accessor, field.ty.rendered())
}

/// The declaration of each field, in order.
pub open spec fn declared_fields(fields: FieldsView) -> Seq<Seq<char>> {
    Seq::new(fields.fields.len(), |i: int| declared_field(fields.shape, fields.fields[i]))
}

/// The field list of a definition: the fields as the schema wrote them, in
/// the brackets of their shape.
pub open spec fn declared_literal(fields: FieldsView) -> Seq<char> {
    bracketed(fields.shape, declared_fields(fields))
}

/// What stands for the field `accessor` of type `ty` when a node is rebuilt
/// under `traversal`.
pub open spec fn field_text(traversal: Traversal, accessor: Seq<char>, ty: TypeView) -> Seq<char> {
    field_expr(traversal, ty.kind(CHILD@), accessor, ty.rendered())
}

/// What stands for each field when a node is rebuilt under `traversal`.
pub open spec fn body_exprs(traversal: Traversal, fields: FieldsView) -> Seq<Seq<char>> {
    Seq::new(
        fields.fields.len(),
        |i: int| field_text(traversal, fields.fields[i].accessor, fields.fields[i].ty),
    )
}

/// The expression that rebuilds `node` under `traversal`.
pub open spec fn node_literal(traversal: Traversal, node: NodeView) -> Seq<char> {
    node.ident + field_literal(node.fields, body_exprs(traversal, node.fields))
}

/// The definition of the node type.
pub open spec fn node_definition_text(node: NodeView) -> Seq<char> {
    node_definition(
        node.ident,
        angled(declared_params(node.params)),
        declared_literal(node.fields),
        node.fields.shape != Shape::Named,
    )
}

/// The conversion from the node into the sum type.
pub open spec fn node_inject_text(sum: Seq<char>, sum_params: Seq<ParamView>, node: NodeView)
    -> Seq<char> {
    inject_impl(
        angled(declared_params(sum_params)),
        applied(node.ident, node.params),
        applied(sum, sum_params),
        node.ident,
    )
}

/// The conversion from the sum type into the node.
pub open spec fn node_project_text(sum: Seq<char>, sum_params: Seq<ParamView>, node: NodeView)
    -> Seq<char> {
    project_impl(
        angled(declared_params(sum_params)),
        applied(node.ident, node.params),
        applied(sum, sum_params),
        node.ident,
    )
}

/// The borrowed map of the node.
pub open spec fn node_map_text(node: NodeView) -> Seq<char> {
    map_impl(
        joined(declared_params(with_child(borrowed_params(node.params))), ", "@),
        applied(node.ident, node.params),
        where_text(node.params),
        applied(node.ident, renamed_params(node.params, CHILD@, MAP_OUTPUT@)),
        node_literal(Traversal::ByRef, node),
    )
}

/// The owned map of the node.
pub open spec fn node_map_owned_text(node: NodeView) -> Seq<char> {
    map_owned_impl(
        joined(declared_params(with_child(node.params)), ", "@),
        applied(node.ident, node.params),
        where_text(node.params),
        applied(node.ident, renamed_params(node.params, CHILD@, MAP_OUTPUT@)),
        node_literal(Traversal::ByValue, node),
    )
}

/// The result sequencing of the node.
pub open spec fn node_into_result_text(node: NodeView) -> Seq<char> {
    into_result_impl(
        angled(declared_params(node.params.push(ParamView::plain(ERROR@)))),
        applied(node.ident, node.params),
        wrapped_type(node.ident, node.params, "std::result::Result<Child, __Error>"@),
        node_literal(Traversal::Failable, node),
    )
}

/// The option sequencing of the node.
pub open spec fn node_into_option_text(node: NodeView) -> Seq<char> {
    into_option_impl(
        angled(declared_params(node.params)),
        applied(node.ident, node.params),
        wrapped_type(node.ident, node.params, "Option<Child>"@),
        node_literal(Traversal::Optional, node),
    )
}

/// Whether `params` holds a type parameter named `ident`.
pub fn find_type_param(params: &Vec<GenericParam>, ident: &String) -> (found: bool)
    ensures
        found == has_type_param(params_view(params@), ident@),
{
    let mut i: usize = 0;
    while i < params.len()
        invariant
            i <= params.len(),
            forall|k: int| 0 <= k < i ==> !(#[trigger] params_view(params@)[k]).is_type_named(ident@),
        decreases params.len() - i,
    {
        let here = match &params[i] {
            GenericParam::Type { ident: name, .. } => *name == *ident,
            _ => false,
        };
        if here {
            assert(params_view(params@)[i as int].is_type_named(ident@));
            return true;
        }
        i += 1;
    }
    false
}

/// Writes the `where` clause of `params` with the space before it.
pub fn write_where_text(params: &Vec<GenericParam>) -> (out: String)
    ensures
        out@ == where_text(params_view(params@)),
{
    match where_clause_for_generics(params) {
        Some(clause) => {
            let mut out = String::from_str(" ");
            out.append(clause.as_str());
            out
        },
        None => String::new(),
    }
}

/// Writes the type `ident` with `wrapper` in the recursive position.
pub fn write_wrapped_type(ident: &str, params: &Vec<GenericParam>, wrapper: &str) -> (out: String)
    ensures
        out@ == wrapped_type(ident@, params_view(params@), wrapper@),
{
    let mut generic_args: Vec<String> = Vec::new();
    let mut i: usize = 0;
    while i < params.len()
        invariant
            i <= params.len(),
            generic_args.len() == i,
            forall|k: int|
                0 <= k < i ==> (#[trigger] generic_args@[k])@ == wrapped_args(
                    params_view(params@),
                    wrapper@,
                )[k],
        decreases params.len() - i,
    {
        let is_child = match &params[i] {
            GenericParam::Type { ident: name, bounds } => {
                let same = bounds.len() == 0 && *name == String::from_str(CHILD);
                proof {
                    if same {
                        assert(types_view(bounds@) =~= Seq::empty());
                    } else if bounds.len() > 0 {
                        assert(types_view(bounds@).len() > 0);
                    }
                }
                same
            },
            _ => false,
        };
        if is_child {
            generic_args.push(String::from_str(wrapper));
        } else {
            generic_args.push(params[i].name());
        }
        i += 1;
    }
    assert(generic_args.deep_view() =~= wrapped_args(params_view(params@), wrapper@));
    let mut out = String::from_str(ident);
    out.append("<");
    out.append(join(&generic_args, ", ").as_str());
    out.append(">");
    out
}

/// Writes the type `ident` applied to `params` and then to `slot`.
pub fn write_slotted_type(ident: &str, params: &Vec<GenericParam>, slot: &str) -> (out: String)
    ensures
        out@ == slotted_type(ident@, params_view(params@), slot@),
{
    let mut args = name_params(params);
    let ghost before = args.deep_view();
    args.push(String::from_str(slot));
    assert(args.deep_view() =~= before.push(slot@));
    let mut out = String::from_str(ident);
    out.append("<");
    out.append(join(&args, ", ").as_str());
    out.append(">");
    out
}

/// Where a transform gives, for every field, exactly the text that `wanted`
/// names, a mapping by it is the sequence of those texts.
pub proof fn lemma_mapping_is_determined<F: Fn(&String, &TypeExpr) -> String>(
    f: F,
    fields: FieldsView,
    exprs: Seq<Seq<char>>,
    wanted: spec_fn(Seq<char>, TypeView) -> Seq<char>,
)
    requires
        mapping(f, fields, exprs),
        forall|accessor: String, ty: TypeExpr, out: String| #[trigger]
            call_ensures(f, (&accessor, &ty), out) ==> out@ == wanted(accessor@, ty@),
    ensures
        exprs == Seq::new(
            fields.fields.len(),
            |i: int| wanted(fields.fields[i].accessor, fields.fields[i].ty),
        ),
{
    assert forall|i: int| 0 <= i < fields.fields.len() implies exprs[i] == wanted(
        fields.fields[i].accessor,
        fields.fields[i].ty,
    ) by {
        assert(transforms(f, fields.fields[i], exprs[i]));
    }
    assert(exprs =~= Seq::new(
        fields.fields.len(),
        |i: int| wanted(fields.fields[i].accessor, fields.fields[i].ty),
    ));
}

/// Writes what stands for the field `accessor` of type `ty` when a node is
/// rebuilt under `traversal`.
pub fn write_field_text(traversal: Traversal, accessor: &String, ty: &TypeExpr) -> (out: String)
    ensures
        out@ == field_text(traversal, accessor@, ty@),
{
    let child_ident = String::from_str(CHILD);
    let kind = classify(ty, &child_ident);
    write_field_expr(traversal, kind, accessor.as_str(), ty.render().as_str())
}

/// Writes the field literal that rebuilds `fields` under `traversal`.
pub fn write_body(traversal: Traversal, fields: &Fields) -> (out: String)
    ensures
        out@ == field_literal(fields@, body_exprs(traversal, fields@)),
{
    let transform = |accessor: &String, ty: &TypeExpr| -> (out: String)
        ensures
            out@ == field_text(traversal, accessor@, ty@),
        { write_field_text(traversal, accessor, ty) };
    let out = map_fields(fields, transform);
    proof {
        let exprs = choose|exprs: Seq<Seq<char>>|
            mapping(transform, fields@, exprs) && out@ == #[trigger] field_literal(
                fields@,
                exprs,
            );
        lemma_mapping_is_determined(
            transform,
            fields@,
            exprs,
            |accessor: Seq<char>, ty: TypeView| field_text(traversal, accessor, ty),
        );
        assert(exprs =~= body_exprs(traversal, fields@));
    }
    out
}

/// Writes the field list of a definition: every field as the schema wrote
/// it.
pub fn write_declared_fields(fields: &Fields) -> (out: String)
    ensures
        out@ == declared_literal(fields@),
{
    let count = fields.len();
    let shape = fields.shape();
    let mut entries: Vec<String> = Vec::new();
    let mut i: usize = 0;
    while i < count
        invariant
            i <= count,
            count == fields@.fields.len(),
            shape == fields@.shape,
            entries.len() == i,
            forall|k: int|
                0 <= k < i ==> (#[trigger] entries@[k])@ == declared_field(
                    shape,
                    fields@.fields[k],
                ),
        decreases count - i,
    {
        let mut entry = fields.prefix(i);
        match shape {
            Shape::Named => {
                let mut named = fields.accessor(i);
                named.append(": ");
                named.append(fields.ty(i).render().as_str());
                entry.append(named.as_str());
            },
            _ => {
                entry.append(fields.ty(i).render().as_str());
            },
        }
        entries.push(entry);
        i += 1;
    }
    assert(entries.deep_view() =~= declared_fields(fields@));
    write_bracketed(shape, &entries)
}

/// Writes the expression that rebuilds `node` under `traversal`.
pub fn write_node_literal(traversal: Traversal, node: &Node) -> (out: String)
    ensures
        out@ == node_literal(traversal, node@),
{
    let mut out = node.ident.clone();
    out.append(write_body(traversal, &node.fields).as_str());
    out
}

/// Writes the definition of the node type.
pub fn write_node_definition_text(node: &Node) -> (out: String)
    ensures
        out@ == node_definition_text(node@),
{
    let terminated = match node.fields.shape() {
        Shape::Named => false,
        _ => true,
    };
    write_node_definition(
        node.ident.as_str(),
        angle(&declare_params(&node.generics)).as_str(),
        write_declared_fields(&node.fields).as_str(),
        terminated,
    )
}

/// Writes the conversion from the node into the sum type.
pub fn write_node_inject(sum: &String, sum_params: &Vec<GenericParam>, node: &Node) -> (out:
    String)
    ensures
        out@ == node_inject_text(sum@, params_view(sum_params@), node@),
{
    write_inject_impl(
        angle(&declare_params(sum_params)).as_str(),
        write_applied(node.ident.as_str(), &node.generics).as_str(),
        write_applied(sum.as_str(), sum_params).as_str(),
        node.ident.as_str(),
    )
}

/// Writes the conversion from the sum type into the node.
pub fn write_node_project(sum: &String, sum_params: &Vec<GenericParam>, node: &Node) -> (out:
    String)
    ensures
        out@ == node_project_text(sum@, params_view(sum_params@), node@),
{
    write_project_impl(
        angle(&declare_params(sum_params)).as_str(),
        write_applied(node.ident.as_str(), &node.generics).as_str(),
        write_applied(sum.as_str(), sum_params).as_str(),
        node.ident.as_str(),
    )
}

/// The parameters of a borrowed map over a type with the parameters
/// `params`.
pub fn borrow_params(params: &Vec<GenericParam>) -> (out: Vec<GenericParam>)
    ensures
        params_view(out@) == borrowed_params(params_view(params@)),
{
    let mut map_generic_params = clone_params(params);
    let kept = all_but_ident(&map_generic_params, &String::from_str(CHILD));
    assert(kept@ =~= all_but(params_view(params@), CHILD@));
    add_bound_to_all(&mut map_generic_params, &kept, &TypeExpr::lifetime("a"));
    map_generic_params
}

/// `params`, with the recursive position added at the end where it is not
/// among them.
pub fn add_child(params: Vec<GenericParam>) -> (out: Vec<GenericParam>)
    ensures
        params_view(out@) == with_child(params_view(params@)),
{
    let child_ident = String::from_str(CHILD);
    let has_child = find_type_param(&params, &child_ident);
    let mut params = params;
    if !has_child {
        let ghost before = params_view(params@);
        params.push(GenericParam::plain(child_ident));
        assert(params_view(params@) =~= before.push(ParamView::plain(CHILD@)));
    }
    params
}

/// The type `ident` applied to `params` with the map's result in the
/// recursive position.
pub fn write_mapped_type(ident: &str, params: &Vec<GenericParam>) -> (out: String)
    ensures
        out@ == applied(ident@, renamed_params(params_view(params@), CHILD@, MAP_OUTPUT@)),
{
    let rg = ReplaceIdent::replace_with(String::from_str(CHILD), String::from_str(MAP_OUTPUT));
    let mapped_generics = rg.fold_generics(clone_params(params));
    write_applied(ident, &mapped_generics)
}

/// Writes the borrowed map of the node.
pub fn write_node_map(node: &Node) -> (out: String)
    ensures
        out@ == node_map_text(node@),
{
    let map_generic_params = add_child(borrow_params(&node.generics));
    write_map_impl(
        join(&declare_params(&map_generic_params), ", ").as_str(),
        write_applied(node.ident.as_str(), &node.generics).as_str(),
        write_where_text(&node.generics).as_str(),
        write_mapped_type(node.ident.as_str(), &node.generics).as_str(),
        write_node_literal(Traversal::ByRef, node).as_str(),
    )
}

/// Writes the owned map of the node.
pub fn write_node_map_owned(node: &Node) -> (out: String)
    ensures
        out@ == node_map_owned_text(node@),
{
    let map_owned_generic_params = add_child(clone_params(&node.generics));
    write_map_owned_impl(
        join(&declare_params(&map_owned_generic_params), ", ").as_str(),
        write_applied(node.ident.as_str(), &node.generics).as_str(),
        write_where_text(&node.generics).as_str(),
        write_mapped_type(node.ident.as_str(), &node.generics).as_str(),
        write_node_literal(Traversal::ByValue, node).as_str(),
    )
}

/// `params` with the failure slot added at the end.
pub fn add_error(params: &Vec<GenericParam>) -> (out: Vec<GenericParam>)
    ensures
        params_view(out@) == params_view(params@).push(ParamView::plain(ERROR@)),
{
    let mut generics_with_e = clone_params(params);
    let ghost before = params_view(generics_with_e@);
    generics_with_e.push(GenericParam::plain(String::from_str(ERROR)));
    assert(params_view(generics_with_e@) =~= before.push(ParamView::plain(ERROR@)));
    generics_with_e
}

/// Writes the result sequencing of the node.
pub fn write_node_into_result(node: &Node) -> (out: String)
    ensures
        out@ == node_into_result_text(node@),
{
    write_into_result_impl(
        angle(&declare_params(&add_error(&node.generics))).as_str(),
        write_applied(node.ident.as_str(), &node.generics).as_str(),
        write_wrapped_type(
            node.ident.as_str(),
            &node.generics,
            "std::result::Result<Child, __Error>",
        ).as_str(),
        write_node_literal(Traversal::Failable, node).as_str(),
    )
}

/// Writes the option sequencing of the node.
pub fn write_node_into_option(node: &Node) -> (out: String)
    ensures
        out@ == node_into_option_text(node@),
{
    write_into_option_impl(
        angle(&declare_params(&node.generics)).as_str(),
        write_applied(node.ident.as_str(), &node.generics).as_str(),
        write_wrapped_type(node.ident.as_str(), &node.generics, "Option<Child>").as_str(),
        write_node_literal(Traversal::Optional, node).as_str(),
    )
}

/// `params` without its last parameter.
pub open spec fn without_last(params: Seq<ParamView>) -> Seq<ParamView> {
    if params.len() == 0 {
        params
    } else {
        params.drop_last()
    }
}

/// The borrowed map of the sum type over the variants `names`.
pub open spec fn sum_map_text(sum: Seq<char>, params: Seq<ParamView>, names: Seq<Seq<char>>)
    -> Seq<char> {
    map_impl(
        joined(declared_params(borrowed_params(params)), ", "@),
        applied(sum, params),
        where_text(params),
        applied(sum, renamed_params(params, CHILD@, MAP_OUTPUT@)),
        dispatch_body(names, "map(f)"@),
    )
}

/// The owned map of the sum type over the variants `names`.
pub open spec fn sum_map_owned_text(
    sum: Seq<char>,
    params: Seq<ParamView>,
    names: Seq<Seq<char>>,
) -> Seq<char> {
    map_owned_impl(
        joined(declared_params(params), ", "@),
        applied(sum, params),
        where_text(params),
        applied(sum, renamed_params(params, CHILD@, MAP_OUTPUT@)),
        dispatch_body(names, "map_owned(f)"@),
    )
}

/// The option sequencing of the sum type over the variants `names`.
pub open spec fn sum_into_option_text(
    sum: Seq<char>,
    params: Seq<ParamView>,
    names: Seq<Seq<char>>,
) -> Seq<char> {
    into_option_impl(
        angled(declared_params(params)),
        applied(sum, params),
        wrapped_type(sum, params, "Option<Child>"@),
        dispatch_body(names, "into_option()?"@),
    )
}

/// The result sequencing of the sum type over the variants `names`.
pub open spec fn sum_into_result_text(
    sum: Seq<char>,
    params: Seq<ParamView>,
    names: Seq<Seq<char>>,
) -> Seq<char> {
    into_result_impl(
        angled(declared_params(params.push(ParamView::plain(ERROR@)))),
        applied(sum, params),
        wrapped_type(sum, params, "std::result::Result<Child, __Error>"@),
        dispatch_body(names, "into_result()?"@),
    )
}

/// The recursion-entry trait of the sum type. It has the parameters of the
/// sum type but the last, which is the recursive position.
pub open spec fn interface_text(sum: Seq<char>, params: Seq<ParamView>, with_try_fold: bool)
    -> Seq<char> {
    interface_trait(
        sum,
        angled(declared_params(without_last(params))),
        where_text(without_last(params)),
        slotted_type(sum, without_last(params), "&Self"@),
        slotted_type(sum, without_last(params), "Self"@),
        slotted_type(sum, without_last(params), "O"@),
        with_try_fold,
    )
}

/// The variants of the sum type, one for each node, in order.
pub open spec fn sum_variants(nodes: Seq<NodeView>) -> Seq<Seq<char>> {
    Seq::new(
        nodes.len(),
        |i: int| sum_variant(nodes[i].ident, applied(nodes[i].ident, nodes[i].params)),
    )
}

/// The definition of the sum type over `nodes`.
pub open spec fn sum_definition_text(
    sum: Seq<char>,
    params: Seq<ParamView>,
    nodes: Seq<NodeView>,
) -> Seq<char> {
    sum_definition(sum, angled(declared_params(params)), sum_variants(nodes))
}

/// Writes the borrowed map of the sum type.
pub fn write_sum_map(sum: &String, params: &Vec<GenericParam>, names: &Vec<String>) -> (out:
    String)
    ensures
        out@ == sum_map_text(sum@, params_view(params@), names.deep_view()),
{
    write_map_impl(
        join(&declare_params(&borrow_params(params)), ", ").as_str(),
        write_applied(sum.as_str(), params).as_str(),
        write_where_text(params).as_str(),
        write_mapped_type(sum.as_str(), params).as_str(),
        write_dispatch_body(names, "map(f)").as_str(),
    )
}

/// Writes the owned map of the sum type.
pub fn write_sum_map_owned(sum: &String, params: &Vec<GenericParam>, names: &Vec<String>) -> (out:
    String)
    ensures
        out@ == sum_map_owned_text(sum@, params_view(params@), names.deep_view()),
{
    write_map_owned_impl(
        join(&declare_params(params), ", ").as_str(),
        write_applied(sum.as_str(), params).as_str(),
        write_where_text(params).as_str(),
        write_mapped_type(sum.as_str(), params).as_str(),
        write_dispatch_body(names, "map_owned(f)").as_str(),
    )
}

/// Writes the option sequencing of the sum type.
pub fn write_sum_into_option(sum: &String, params: &Vec<GenericParam>, names: &Vec<String>) -> (out:
    String)
    ensures
        out@ == sum_into_option_text(sum@, params_view(params@), names.deep_view()),
{
    write_into_option_impl(
        angle(&declare_params(params)).as_str(),
        write_applied(sum.as_str(), params).as_str(),
        write_wrapped_type(sum.as_str(), params, "Option<Child>").as_str(),
        write_dispatch_body(names, "into_option()?").as_str(),
    )
}

/// Writes the result sequencing of the sum type.
pub fn write_sum_into_result(sum: &String, params: &Vec<GenericParam>, names: &Vec<String>) -> (out:
    String)
    ensures
        out@ == sum_into_result_text(sum@, params_view(params@), names.deep_view()),
{
    write_into_result_impl(
        angle(&declare_params(&add_error(params))).as_str(),
        write_applied(sum.as_str(), params).as_str(),
        write_wrapped_type(
            sum.as_str(),
            params,
            "std::result::Result<Child, __Error>",
        ).as_str(),
        write_dispatch_body(names, "into_result()?").as_str(),
    )
}

/// Writes the recursion-entry trait of the sum type.
pub fn write_interface(sum: &String, params: &Vec<GenericParam>, with_try_fold: bool) -> (out:
    String)
    ensures
        out@ == interface_text(sum@, params_view(params@), with_try_fold),
{
    let mut c_generics_no_child = clone_params(params);
    let ghost before = params_view(c_generics_no_child@);
    let _ = c_generics_no_child.pop();
    assert(params_view(c_generics_no_child@) =~= without_last(before));
    write_interface_trait(
        sum.as_str(),
        angle(&declare_params(&c_generics_no_child)).as_str(),
        write_where_text(&c_generics_no_child).as_str(),
        write_slotted_type(sum.as_str(), &c_generics_no_child, "&Self").as_str(),
        write_slotted_type(sum.as_str(), &c_generics_no_child, "Self").as_str(),
        write_slotted_type(sum.as_str(), &c_generics_no_child, "O").as_str(),
        with_try_fold,
    )
}

/// What a node compiles to: its type, its definition, and one item for each
/// capability that was requested.
#[derive(Debug, PartialEq, Eq)]
pub struct CompiledNode {
    pub node: Node,
    pub definition: String,
    pub inject: Option<String>,
    pub project: Option<String>,
    pub map: Option<String>,
    pub map_owned: Option<String>,
    pub into_result: Option<String>,
    pub into_option: Option<String>,
}

/// The mathematical value of a [`CompiledNode`].
pub struct CompiledNodeView {
    pub node: NodeView,
    pub definition: Seq<char>,
    pub inject: Option<Seq<char>>,
    pub project: Option<Seq<char>>,
    pub map: Option<Seq<char>>,
    pub map_owned: Option<Seq<char>>,
    pub into_result: Option<Seq<char>>,
    pub into_option: Option<Seq<char>>,
}

/// The text of an item that may be absent.
pub open spec fn item_view(item: Option<String>) -> Option<Seq<char>> {
    match item {
        Some(text) => Some(text@),
        None => None,
    }
}

impl View for CompiledNode {
    type V = CompiledNodeView;

    open spec fn view(&self) -> CompiledNodeView {
        CompiledNodeView {
            node: self.node@,
            definition: self.definition@,
            inject: item_view(self.inject),
            project: item_view(self.project),
            map: item_view(self.map),
            map_owned: item_view(self.map_owned),
            into_result: item_view(self.into_result),
            into_option: item_view(self.into_option),
        }
    }
}

/// `text` where `wanted` holds, nothing where it does not.
pub open spec fn item_if(wanted: bool, text: Seq<char>) -> Option<Seq<char>> {
    if wanted {
        Some(text)
    } else {
        None
    }
}

/// What `node` compiles to under the sum type `sum` with the parameters
/// `params`, where `derives` is requested. An item is there if and only if
/// its capability is requested.
pub open spec fn compiled_node(
    node: NodeView,
    sum: Seq<char>,
    params: Seq<ParamView>,
    derives: Set<SupportedDerives>,
) -> CompiledNodeView {
    CompiledNodeView {
        node,
        definition: node_definition_text(node),
        inject: item_if(
            derives.contains(SupportedDerives::From),
            node_inject_text(sum, params, node),
        ),
        project: item_if(
            derives.contains(SupportedDerives::TryInto),
            node_project_text(sum, params, node),
        ),
        map: item_if(derives.contains(SupportedDerives::MapRef), node_map_text(node)),
        map_owned: item_if(
            derives.contains(SupportedDerives::MapOwned),
            node_map_owned_text(node),
        ),
        into_result: item_if(
            derives.contains(SupportedDerives::IntoResult),
            node_into_result_text(node),
        ),
        into_option: item_if(
            derives.contains(SupportedDerives::IntoOption),
            node_into_option_text(node),
        ),
    }
}

/// Compiles `node` under the sum type `sum` with the parameters `params`.
pub fn compile_node(
    node: Node,
    sum: &String,
    params: &Vec<GenericParam>,
    derives: &Capabilities,
) -> (out: CompiledNode)
    ensures
        out@ == compiled_node(node@, sum@, params_view(params@), derives@),
{
    let definition = write_node_definition_text(&node);
    let inject = if derives.contains(SupportedDerives::From) {
        Some(write_node_inject(sum, params, &node))
    } else {
        None
    };
    let project = if derives.contains(SupportedDerives::TryInto) {
        Some(write_node_project(sum, params, &node))
    } else {
        None
    };
    let map = if derives.contains(SupportedDerives::MapRef) {
        Some(write_node_map(&node))
    } else {
        None
    };
    let map_owned = if derives.contains(SupportedDerives::MapOwned) {
        Some(write_node_map_owned(&node))
    } else {
        None
    };
    let into_result = if derives.contains(SupportedDerives::IntoResult) {
        Some(write_node_into_result(&node))
    } else {
        None
    };
    let into_option = if derives.contains(SupportedDerives::IntoOption) {
        Some(write_node_into_option(&node))
    } else {
        None
    };
    CompiledNode { node, definition, inject, project, map, map_owned, into_result, into_option }
}

/// What a schema compiles to: its nodes, the operations of the sum type for
/// the capabilities that were requested, the recursion-entry trait and the
/// sum type itself.
#[derive(Debug, PartialEq, Eq)]
pub struct CompiledTree {
    pub nodes: Vec<CompiledNode>,
    pub map: Option<String>,
    pub map_owned: Option<String>,
    pub into_option: Option<String>,
    pub into_result: Option<String>,
    pub interface: String,
    pub definition: String,
}

/// The mathematical value of a [`CompiledTree`].
pub struct CompiledTreeView {
    pub nodes: Seq<CompiledNodeView>,
    pub map: Option<Seq<char>>,
    pub map_owned: Option<Seq<char>>,
    pub into_option: Option<Seq<char>>,
    pub into_result: Option<Seq<char>>,
    pub interface: Seq<char>,
    pub definition: Seq<char>,
}

/// The views of a list of compiled nodes.
pub open spec fn compiled_nodes_view(nodes: Seq<CompiledNode>) -> Seq<CompiledNodeView> {
    Seq::new(nodes.len(), |i: int| nodes[i]@)
}

impl View for CompiledTree {
    type V = CompiledTreeView;

    open spec fn view(&self) -> CompiledTreeView {
        CompiledTreeView {
            nodes: compiled_nodes_view(self.nodes@),
            map: item_view(self.map),
            map_owned: item_view(self.map_owned),
            into_option: item_view(self.into_option),
            into_result: item_view(self.into_result),
            interface: self.interface@,
            definition: self.definition@,
        }
    }
}

/// The names of `nodes`, in order.
pub open spec fn node_names(nodes: Seq<NodeView>) -> Seq<Seq<char>> {
    Seq::new(nodes.len(), |i: int| nodes[i].ident)
}

/// Each node's compilation, in order.
pub open spec fn compiled_nodes(
    nodes: Seq<NodeView>,
    sum: Seq<char>,
    params: Seq<ParamView>,
    derives: Set<SupportedDerives>,
) -> Seq<CompiledNodeView> {
    Seq::new(nodes.len(), |i: int| compiled_node(nodes[i], sum, params, derives))
}

/// What the sum type `sum` with the parameters `params` over `nodes`
/// compiles to, where `derives` is requested. An operation of the sum type
/// is there if and only if its capability is requested; the failable fold is
/// part of the trait if and only if result sequencing is.
pub open spec fn compiled_tree(
    sum: Seq<char>,
    params: Seq<ParamView>,
    nodes: Seq<NodeView>,
    derives: Set<SupportedDerives>,
) -> CompiledTreeView {
    CompiledTreeView {
        nodes: compiled_nodes(nodes, sum, params, derives),
        map: item_if(
            derives.contains(SupportedDerives::MapRef),
            sum_map_text(sum, params, node_names(nodes)),
        ),
        map_owned: item_if(
            derives.contains(SupportedDerives::MapOwned),
            sum_map_owned_text(sum, params, node_names(nodes)),
        ),
        into_option: item_if(
            derives.contains(SupportedDerives::IntoOption),
            sum_into_option_text(sum, params, node_names(nodes)),
        ),
        into_result: item_if(
            derives.contains(SupportedDerives::IntoResult),
            sum_into_result_text(sum, params, node_names(nodes)),
        ),
        interface: interface_text(sum, params, derives.contains(SupportedDerives::IntoResult)),
        definition: sum_definition_text(sum, params, nodes),
    }
}

/// The text of an item with the line break after it, or nothing.
pub open spec fn item_line(item: Option<Seq<char>>) -> Seq<char> {
    match item {
        Some(text) => text + "\n"@,
        None => Seq::empty(),
    }
}

impl CompiledNodeView {
    /// The items of the node, one to a line: the definition, then the
    /// conversions, the maps and the sequencings.
    pub open spec fn source(self) -> Seq<char> {
        self.definition + "\n"@ + item_line(self.inject) + item_line(self.project) + item_line(
            self.map,
        ) + item_line(self.map_owned) + item_line(self.into_result) + item_line(self.into_option)
    }
}

/// The sources of the first `upto` nodes, one after the other.
pub open spec fn nodes_source(nodes: Seq<CompiledNodeView>, upto: int) -> Seq<char>
    decreases upto,
{
    if upto <= 0 {
        Seq::empty()
    } else {
        nodes_source(nodes, upto - 1) + nodes[upto - 1].source()
    }
}

impl CompiledTreeView {
    /// All items, one to a line: the nodes in order, the operations of the
    /// sum type, the recursion-entry trait, the sum type.
    pub open spec fn source(self) -> Seq<char> {
        nodes_source(self.nodes, self.nodes.len() as int) + item_line(self.map) + item_line(
            self.map_owned,
        ) + item_line(self.into_option) + item_line(self.into_result) + self.interface + "\n"@
            + self.definition + "\n"@
    }
}

/// Writes an item with the line break after it, or nothing.
fn append_item(out: &mut String, item: &Option<String>)
    ensures
        final(out)@ == old(out)@ + item_line(item_view(*item)),
{
    match item {
        Some(text) => {
            let mut line = text.clone();
            line.append("\n");
            out.append(line.as_str());
        },
        None => {
            assert(out@ + Seq::<char>::empty() =~= out@);
        },
    }
}

impl CompiledNode {
    /// The source text of the node's items.
    pub fn source(&self) -> (out: String)
        ensures
            out@ == self@.source(),
    {
        let mut out = self.definition.clone();
        out.append("\n");
        append_item(&mut out, &self.inject);
        append_item(&mut out, &self.project);
        append_item(&mut out, &self.map);
        append_item(&mut out, &self.map_owned);
        append_item(&mut out, &self.into_result);
        append_item(&mut out, &self.into_option);
        out
    }
}

impl CompiledTree {
    /// The source text of all items.
    pub fn source(&self) -> (out: String)
        ensures
            out@ == self@.source(),
    {
        let mut out = String::new();
        let mut i: usize = 0;
        while i < self.nodes.len()
            invariant
                i <= self.nodes.len(),
                out@ == nodes_source(self@.nodes, i as int),
            decreases self.nodes.len() - i,
        {
            out.append(self.nodes[i].source().as_str());
            i += 1;
        }
        append_item(&mut out, &self.map);
        append_item(&mut out, &self.map_owned);
        append_item(&mut out, &self.into_option);
        append_item(&mut out, &self.into_result);
        out.append(self.interface.as_str());
        out.append("\n");
        out.append(self.definition.as_str());
        out.append("\n");
        out
    }
}

impl CompiledNodeView {
    /// The item that the node has for `capability`, if it has one.
    pub open spec fn item(self, capability: SupportedDerives) -> Option<Seq<char>> {
        match capability {
            SupportedDerives::From => self.inject,
            SupportedDerives::TryInto => self.project,
            SupportedDerives::MapRef => self.map,
            SupportedDerives::MapOwned => self.map_owned,
            SupportedDerives::IntoResult => self.into_result,
            SupportedDerives::IntoOption => self.into_option,
        }
    }
}

impl CompiledTreeView {
    /// The operation that the sum type itself has for `capability`, if it
    /// has one. The conversions are items of the nodes only.
    pub open spec fn operation(self, capability: SupportedDerives) -> Option<Seq<char>> {
        match capability {
            SupportedDerives::From => None,
            SupportedDerives::TryInto => None,
            SupportedDerives::MapRef => self.map,
            SupportedDerives::MapOwned => self.map_owned,
            SupportedDerives::IntoResult => self.into_result,
            SupportedDerives::IntoOption => self.into_option,
        }
    }
}

/// A capability that was not requested leaves no item, neither for a node
/// nor for the sum type; a capability that was requested leaves one for
/// every node and, but for the conversions, one for the sum type.
pub proof fn lemma_items_follow_requests(
    sum: Seq<char>,
    params: Seq<ParamView>,
    nodes: Seq<NodeView>,
    derives: Set<SupportedDerives>,
    capability: SupportedDerives,
)
    ensures
        compiled_tree(sum, params, nodes, derives).nodes.len() == nodes.len(),
        forall|i: int|
            0 <= i < nodes.len() ==> ((#[trigger] compiled_tree(
                sum,
                params,
                nodes,
                derives,
            ).nodes[i]).item(capability) is Some <==> derives.contains(capability)),
        !derives.contains(capability) ==> compiled_tree(sum, params, nodes, derives).operation(
            capability,
        ) is None,
        derives.contains(capability) && capability != SupportedDerives::From && capability
            != SupportedDerives::TryInto ==> compiled_tree(sum, params, nodes, derives).operation(
            capability,
        ) is Some,
{
}

} // verus!

//! Source text of the generated items.
//!
//! Each item is described twice: by a spec function that says what its text
//! is, and by an executable function that writes exactly that text.

use crate::text::{join, joined};
use crate::ty::FieldKind;
use vstd::prelude::*;

verus! {

/// The name that stands for the whole tree inside a schema.
pub const SELF: &'static str = "Self";

/// The name of the recursive position in generated types.
pub const CHILD: &'static str = "Child";

/// The name of the result slot in generated maps.
pub const MAP_OUTPUT: &'static str = "MapOutput";

/// The name of the failure slot in generated result sequencing.
pub const ERROR: &'static str = "__Error";

/// The definition of a node type: `pub struct` with the node's name, its
/// parameters and its fields. `terminated` tells whether a semicolon closes
/// the item, as it does for positional and empty field lists.
pub open spec fn node_definition(
    ident: Seq<char>,
    params: Seq<char>,
    body: Seq<char>,
    terminated: bool,
) -> Seq<char> {
    "pub struct "@ + ident + params + body + if terminated {
        ";"@
    } else {
        Seq::empty()
    }
}

/// The conversion that wraps a node as its variant of the sum type.
pub open spec fn inject_impl(
    params: Seq<char>,
    node_ty: Seq<char>,
    sum_ty: Seq<char>,
    node: Seq<char>,
) -> Seq<char> {
    "impl"@ + params + " From<"@ + node_ty + "> for "@ + sum_ty + " { fn from(variant: "@ + node_ty
        + ") -> Self { Self::"@ + node + "(variant) } }"@
}

/// The conversion that unwraps a value of the sum type as one node type, or
/// fails with the unit value where another variant is active.
pub open spec fn project_impl(
    params: Seq<char>,
    node_ty: Seq<char>,
    sum_ty: Seq<char>,
    node: Seq<char>,
) -> Seq<char> {
    "impl"@ + params + " std::convert::TryInto<"@ + node_ty + "> for "@ + sum_ty
        + " { type Error = (); fn try_into(self) -> std::result::Result<"@ + node_ty
        + ", Self::Error> { match self { Self::"@ + node
        + "(variant) => Ok(variant), _ => Err(()) } } }"@
}

/// The functor map over a borrow.
pub open spec fn map_impl(
    params: Seq<char>,
    subject: Seq<char>,
    where_clause: Seq<char>,
    output: Seq<char>,
    body: Seq<char>,
) -> Seq<char> {
    "impl<'a, MapOutput: 'a, "@ + params + "> entish::Map<'a, &'a Child, MapOutput> for "@
        + subject + where_clause + " { type OuterO = "@ + output
        + "; fn map<F>(&'a self, f: &mut F) -> Self::OuterO where F: FnMut(&'a Child) -> MapOutput { "@
        + body + " } }"@
}

/// The functor map that consumes its subject.
pub open spec fn map_owned_impl(
    params: Seq<char>,
    subject: Seq<char>,
    where_clause: Seq<char>,
    output: Seq<char>,
    body: Seq<char>,
) -> Seq<char> {
    "impl<MapOutput, "@ + params + "> entish::MapOwned<Child, MapOutput> for "@ + subject
        + where_clause + " { type OuterO = "@ + output
        + "; fn map_owned<F>(self, f: &mut F) -> Self::OuterO where F: FnMut(Child) -> MapOutput { "@
        + body + " } }"@
}

/// The sequencing of failable children into one failable value.
pub open spec fn into_result_impl(
    params: Seq<char>,
    target: Seq<char>,
    wrapped: Seq<char>,
    body: Seq<char>,
) -> Seq<char> {
    "impl"@ + params + " entish::IntoResult<"@ + target + ", __Error> for "@ + wrapped
        + " { fn into_result(self) -> std::result::Result<"@ + target + ", __Error> { Ok("@ + body
        + ") } }"@
}

/// The sequencing of optional children into one optional value.
pub open spec fn into_option_impl(
    params: Seq<char>,
    target: Seq<char>,
    wrapped: Seq<char>,
    body: Seq<char>,
) -> Seq<char> {
    "impl"@ + params + " entish::IntoOption<"@ + target + "> for "@ + wrapped
        + " { fn into_option(self) -> Option<"@ + target + "> { Some("@ + body + ") } }"@
}

/// One arm of a dispatch over the active variant.
pub open spec fn dispatch_arm(variant: Seq<char>, call: Seq<char>) -> Seq<char> {
    "Self::"@ + variant + "(variant) => variant."@ + call + ".into()"@
}

/// The arms of a dispatch, one for each variant, in order.
pub open spec fn dispatch_arms(variants: Seq<Seq<char>>, call: Seq<char>) -> Seq<Seq<char>> {
    Seq::new(variants.len(), |i: int| dispatch_arm(variants[i], call))
}

/// The body of an operation of the sum type: it matches the active variant,
/// hands the work to that node and wraps the node that comes back.
pub open spec fn dispatch_body(variants: Seq<Seq<char>>, call: Seq<char>) -> Seq<char> {
    "match self { "@ + joined(dispatch_arms(variants, call), ", "@) + " }"@
}

/// The failable fold of the recursion-entry trait. The children are folded
/// in the order in which the owned map reaches them. The first failure is
/// kept; no child after it is folded, and the function is applied to no
/// level above it. Where no child fails, the function is applied to the
/// level with the results in place of the children.
///
/// A child that is not folded stands for a failure without a value, so
/// that sequencing the level fails. That happens only after a failure was
/// kept, which is why the last arm of the final `match` is never reached.
pub open spec fn try_fold_method(folded: Seq<char>) -> Seq<char> {
    "fn try_fold<F, O, E>(self, f: &mut F) -> std::result::Result<O, E> where F: FnMut("@ + folded
        + ") -> std::result::Result<O, E> { let mut failure = None; let arg = self.into_inner().map_owned(&mut |c| if failure.is_some() { Err(()) } else { c.try_fold(f).map_err(|error| failure = Some(error)) }).into_result(); match (failure, arg) { (Some(error), _) => Err(error), (None, Ok(arg)) => f(arg), (None, Err(())) => unreachable!() } } "@
}

/// The recursion-entry trait of a sum type.
pub open spec fn interface_trait(
    sum: Seq<char>,
    params: Seq<char>,
    where_clause: Seq<char>,
    borrowed: Seq<char>,
    owned: Seq<char>,
    folded: Seq<char>,
    with_try_fold: bool,
) -> Seq<char> {
    "pub trait "@ + sum + "Tree"@ + params + ": Sized"@ + where_clause + " { fn as_ref(&self) -> "@
        + borrowed + "; fn into_inner(self) -> "@ + owned
        + "; fn fold<F, O>(self, f: &mut F) -> O where F: FnMut("@ + folded
        + ") -> O { let arg = self.into_inner().map_owned(&mut |c| c.fold(f)); f(arg) } "@
        + if with_try_fold {
        try_fold_method(folded)
    } else {
        Seq::empty()
    }
        + "fn iter_children<'a, I>(&'a self) -> std::vec::IntoIter<&'a Self> { let mut children = Vec::new(); self.as_ref().map(&mut |&c| children.push(c)); children.into_iter() } }"@
}

/// One variant of the sum type: the node's name around the node type.
pub open spec fn sum_variant(node: Seq<char>, node_ty: Seq<char>) -> Seq<char> {
    node + "("@ + node_ty + ")"@
}

/// The definition of the sum type.
pub open spec fn sum_definition(sum: Seq<char>, params: Seq<char>, variants: Seq<Seq<char>>) -> Seq<
    char,
> {
    "pub enum "@ + sum + params + " { "@ + joined(variants, ", "@) + " }"@
}

/// The ways in which an operation walks the fields of a node.
#[derive(Clone, Copy, PartialEq, Eq, Structural, Debug)]
pub enum Traversal {
    /// Map under a borrow.
    ByRef,
    /// Map that consumes the node.
    ByValue,
    /// Sequence children that may have failed.
    Failable,
    /// Sequence children that may be absent.
    Optional,
}

/// The expression that stands for one field in a rebuilt node. `accessor`
/// reaches the field, `kind` says how its type relates to the recursive
/// position, and `ty` is the text of its type.
///
/// A field that is the recursive position is handed to the function, or
/// unwrapped. A field that nests it hands the work to its own type. A leaf is
/// cloned by the maps and moved by the sequencings.
pub open spec fn field_expr(
    traversal: Traversal,
    kind: FieldKind,
    accessor: Seq<char>,
    ty: Seq<char>,
) -> Seq<char> {
    match traversal {
        Traversal::ByRef => match kind {
            FieldKind::Child => "f(&self."@ + accessor + ")"@,
            FieldKind::Container => "<"@ + ty + " as Map<&'a Child, MapOutput>>::map(&self."@
                + accessor + ", f)"@,
            FieldKind::Leaf => "self."@ + accessor + ".clone()"@,
        },
        Traversal::ByValue => match kind {
            FieldKind::Child => "f(self."@ + accessor + ")"@,
            FieldKind::Container => "<"@ + ty
                + " as MapOwned<Child, MapOutput>>::map_owned(self."@ + accessor + ", f)"@,
            FieldKind::Leaf => "self."@ + accessor + ".clone()"@,
        },
        Traversal::Failable => match kind {
            FieldKind::Child => "self."@ + accessor + "?"@,
            FieldKind::Container => "self."@ + accessor + ".into_result()?"@,
            FieldKind::Leaf => "self."@ + accessor,
        },
        Traversal::Optional => match kind {
            FieldKind::Child => "self."@ + accessor + "?"@,
            FieldKind::Container => "self."@ + accessor + ".into_option()?"@,
            FieldKind::Leaf => "self."@ + accessor,
        },
    }
}

/// Writes [`field_expr`].
pub fn write_field_expr(traversal: Traversal, kind: FieldKind, accessor: &str, ty: &str) -> (out:
    String)
    ensures
        out@ == field_expr(traversal, kind, accessor@, ty@),
{
    match traversal {
        Traversal::ByRef => match kind {
            FieldKind::Child => {
                let mut out = String::from_str("f(&self.");
                out.append(accessor);
                out.append(")");
                out
            },
            FieldKind::Container => {
                let mut out = String::from_str("<");
                out.append(ty);
                out.append(" as Map<&'a Child, MapOutput>>::map(&self.");
                out.append(accessor);
                out.append(", f)");
                out
            },
            FieldKind::Leaf => {
                let mut out = String::from_str("self.");
                out.append(accessor);
                out.append(".clone()");
                out
            },
        },
        Traversal::ByValue => match kind {
            FieldKind::Child => {
                let mut out = String::from_str("f(self.");
                out.append(accessor);
                out.append(")");
                out
            },
            FieldKind::Container => {
                let mut out = String::from_str("<");
                out.append(ty);
                out.append(" as MapOwned<Child, MapOutput>>::map_owned(self.");
                out.append(accessor);
                out.append(", f)");
                out
            },
            FieldKind::Leaf => {
                let mut out = String::from_str("self.");
                out.append(accessor);
                out.append(".clone()");
                out
            },
        },
        Traversal::Failable => match kind {
            FieldKind::Child => {
                let mut out = String::from_str("self.");
                out.append(accessor);
                out.append("?");
                out
            },
            FieldKind::Container => {
                let mut out = String::from_str("self.");
                out.append(accessor);
                out.append(".into_result()?");
                out
            },
            FieldKind::Leaf => {
                let mut out = String::from_str("self.");
                out.append(accessor);
                out
            },
        },
        Traversal::Optional => match kind {
            FieldKind::Child => {
                let mut out = String::from_str("self.");
                out.append(accessor);
                out.append("?");
                out
            },
            FieldKind::Container => {
                let mut out = String::from_str("self.");
                out.append(accessor);
                out.append(".into_option()?");
                out
            },
            FieldKind::Leaf => {
                let mut out = String::from_str("self.");
                out.append(accessor);
                out
            },
        },
    }
}

/// Writes [`node_definition`].
pub fn write_node_definition(ident: &str, params: &str, body: &str, terminated: bool) -> (out:
    String)
    ensures
        out@ == node_definition(ident@, params@, body@, terminated),
{
    let mut out = String::from_str("pub struct ");
    out.append(ident);
    out.append(params);
    out.append(body);
    if terminated {
        out.append(";");
    } else {
        assert(out@ + Seq::<char>::empty() =~= out@);
    }
    out
}

/// Writes [`inject_impl`].
pub fn write_inject_impl(params: &str, node_ty: &str, sum_ty: &str, node: &str) -> (out: String)
    ensures
        out@ == inject_impl(params@, node_ty@, sum_ty@, node@),
{
    let mut out = String::from_str("impl");
    out.append(params);
    out.append(" From<");
    out.append(node_ty);
    out.append("> for ");
    out.append(sum_ty);
    out.append(" { fn from(variant: ");
    out.append(node_ty);
    out.append(") -> Self { Self::");
    out.append(node);
    out.append("(variant) } }");
    out
}

/// Writes [`project_impl`].
pub fn write_project_impl(params: &str, node_ty: &str, sum_ty: &str, node: &str) -> (out: String)
    ensures
        out@ == project_impl(params@, node_ty@, sum_ty@, node@),
{
    let mut out = String::from_str("impl");
    out.append(params);
    out.append(" std::convert::TryInto<");
    out.append(node_ty);
    out.append("> for ");
    out.append(sum_ty);
    out.append(" { type Error = (); fn try_into(self) -> std::result::Result<");
    out.append(node_ty);
    out.append(", Self::Error> { match self { Self::");
    out.append(node);
    out.append("(variant) => Ok(variant), _ => Err(()) } } }");
    out
}

/// Writes [`map_impl`].
pub fn write_map_impl(
    params: &str,
    subject: &str,
    where_clause: &str,
    output: &str,
    body: &str,
) -> (out: String)
    ensures
        out@ == map_impl(params@, subject@, where_clause@, output@, body@),
{
    let mut out = String::from_str("impl<'a, MapOutput: 'a, ");
    out.append(params);
    out.append("> entish::Map<'a, &'a Child, MapOutput> for ");
    out.append(subject);
    out.append(where_clause);
    out.append(" { type OuterO = ");
    out.append(output);
    out.append(
        "; fn map<F>(&'a self, f: &mut F) -> Self::OuterO where F: FnMut(&'a Child) -> MapOutput { ",
    );
    out.append(body);
    out.append(" } }");
    out
}

/// Writes [`map_owned_impl`].
pub fn write_map_owned_impl(
    params: &str,
    subject: &str,
    where_clause: &str,
    output: &str,
    body: &str,
) -> (out: String)
    ensures
        out@ == map_owned_impl(params@, subject@, where_clause@, output@, body@),
{
    let mut out = String::from_str("impl<MapOutput, ");
    out.append(params);
    out.append("> entish::MapOwned<Child, MapOutput> for ");
    out.append(subject);
    out.append(where_clause);
    out.append(" { type OuterO = ");
    out.append(output);
    out.append(
        "; fn map_owned<F>(self, f: &mut F) -> Self::OuterO where F: FnMut(Child) -> MapOutput { ",
    );
    out.append(body);
    out.append(" } }");
    out
}

/// Writes [`into_result_impl`].
pub fn write_into_result_impl(params: &str, target: &str, wrapped: &str, body: &str) -> (out:
    String)
    ensures
        out@ == into_result_impl(params@, target@, wrapped@, body@),
{
    let mut out = String::from_str("impl");
    out.append(params);
    out.append(" entish::IntoResult<");
    out.append(target);
    out.append(", __Error> for ");
    out.append(wrapped);
    out.append(" { fn into_result(self) -> std::result::Result<");
    out.append(target);
    out.append(", __Error> { Ok(");
    out.append(body);
    out.append(") } }");
    out
}

/// Writes [`into_option_impl`].
pub fn write_into_option_impl(params: &str, target: &str, wrapped: &str, body: &str) -> (out:
    String)
    ensures
        out@ == into_option_impl(params@, target@, wrapped@, body@),
{
    let mut out = String::from_str("impl");
    out.append(params);
    out.append(" entish::IntoOption<");
    out.append(target);
    out.append("> for ");
    out.append(wrapped);
    out.append(" { fn into_option(self) -> Option<");
    out.append(target);
    out.append("> { Some(");
    out.append(body);
    out.append(") } }");
    out
}

/// Writes [`dispatch_body`].
pub fn write_dispatch_body(variants: &Vec<String>, call: &str) -> (out: String)
    ensures
        out@ == dispatch_body(variants.deep_view(), call@),
{
    let mut arms: Vec<String> = Vec::new();
    let mut i: usize = 0;
    while i < variants.len()
        invariant
            i <= variants.len(),
            arms.len() == i,
            forall|k: int|
                0 <= k < i ==> (#[trigger] arms@[k])@ == dispatch_arm(variants@[k]@, call@),
        decreases variants.len() - i,
    {
        let mut arm = String::from_str("Self::");
        arm.append(variants[i].as_str());
        arm.append("(variant) => variant.");
        arm.append(call);
        arm.append(".into()");
        arms.push(arm);
        i += 1;
    }
    assert(arms.deep_view() =~= dispatch_arms(variants.deep_view(), call@));
    let mut out = String::from_str("match self { ");
    out.append(join(&arms, ", ").as_str());
    out.append(" }");
    out
}

/// Writes [`try_fold_method`].
pub fn write_try_fold_method(folded: &str) -> (out: String)
    ensures
        out@ == try_fold_method(folded@),
{
    let mut out = String::from_str(
        "fn try_fold<F, O, E>(self, f: &mut F) -> std::result::Result<O, E> where F: FnMut(",
    );
    out.append(folded);
    out.append(
        ") -> std::result::Result<O, E> { let mut failure = None; let arg = self.into_inner().map_owned(&mut |c| if failure.is_some() { Err(()) } else { c.try_fold(f).map_err(|error| failure = Some(error)) }).into_result(); match (failure, arg) { (Some(error), _) => Err(error), (None, Ok(arg)) => f(arg), (None, Err(())) => unreachable!() } } ",
    );
    out
}

/// Writes [`interface_trait`].
pub fn write_interface_trait(
    sum: &str,
    params: &str,
    where_clause: &str,
    borrowed: &str,
    owned: &str,
    folded: &str,
    with_try_fold: bool,
) -> (out: String)
    ensures
        out@ == interface_trait(
            sum@,
            params@,
            where_clause@,
            borrowed@,
            owned@,
            folded@,
            with_try_fold,
        ),
{
    let mut out = String::from_str("pub trait ");
    out.append(sum);
    out.append("Tree");
    out.append(params);
    out.append(": Sized");
    out.append(where_clause);
    out.append(" { fn as_ref(&self) -> ");
    out.append(borrowed);
    out.append("; fn into_inner(self) -> ");
    out.append(owned);
    out.append("; fn fold<F, O>(self, f: &mut F) -> O where F: FnMut(");
    out.append(folded);
    out.append(") -> O { let arg = self.into_inner().map_owned(&mut |c| c.fold(f)); f(arg) } ");
    if with_try_fold {
        out.append(write_try_fold_method(folded).as_str());
    } else {
        assert(out@ + Seq::<char>::empty() =~= out@);
    }
    out.append(
        "fn iter_children<'a, I>(&'a self) -> std::vec::IntoIter<&'a Self> { let mut children = Vec::new(); self.as_ref().map(&mut |&c| children.push(c)); children.into_iter() } }",
    );
    out
}

/// Writes [`sum_variant`].
pub fn write_sum_variant(node: &str, node_ty: &str) -> (out: String)
    ensures
        out@ == sum_variant(node@, node_ty@),
{
    let mut out = String::from_str(node);
    out.append("(");
    out.append(node_ty);
    out.append(")");
    out
}

/// Writes [`sum_definition`].
pub fn write_sum_definition(sum: &str, params: &str, variants: &Vec<String>) -> (out: String)
    ensures
        out@ == sum_definition(sum@, params@, variants.deep_view()),
{
    let mut out = String::from_str("pub enum ");
    out.append(sum);
    out.append(params);
    out.append(" { ");
    out.append(join(variants, ", ").as_str());
    out.append(" }");
    out
}

} // verus!

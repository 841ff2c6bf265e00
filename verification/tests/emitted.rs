use entish_derive::entish::{DeriveEntry, EntishBuilder, SchemaHeader};
use entish_derive::schema::{Fields, Variant};
use entish_derive::ty::TypeExpr;

// The items below are what the compiler emits for the schema
//
//     #[derive(Map, MapOwned, From, TryInto, IntoResult)]
//     enum Calc { Add(Self, Self), Num(i32) }
//
// written out next to plain versions of the traits that the items name, so
// that the emitted items run here. The node types and the sum type carry
// derives for the sake of the comparisons below, and the borrowed map goes
// by the name `MapRef` here.

trait MapOwned<I, O> {
    type OuterO;
    fn map_owned<F>(self, f: &mut F) -> Self::OuterO
    where
        F: FnMut(I) -> O;
}

trait MapRef<'a, I, O> {
    type OuterO;
    fn map<F>(&'a self, f: &mut F) -> Self::OuterO
    where
        F: FnMut(I) -> O;
}

trait IntoResult<T, E> {
    fn into_result(self) -> std::result::Result<T, E>;
}

#[derive(Debug, PartialEq, Clone)]
pub struct Add<Child>(Child, Child);
#[derive(Debug, PartialEq, Clone)]
pub struct Num(i32);
#[derive(Debug, PartialEq, Clone)]
pub enum Calc<Child> {
    Add(Add<Child>),
    Num(Num),
}

impl<Child> From<Add<Child>> for Calc<Child> { fn from(variant: Add<Child>) -> Self { Self::Add(variant) } }
impl<Child> From<Num> for Calc<Child> { fn from(variant: Num) -> Self { Self::Num(variant) } }
impl<Child> std::convert::TryInto<Add<Child>> for Calc<Child> { type Error = (); fn try_into(self) -> std::result::Result<Add<Child>, Self::Error> { match self { Self::Add(variant) => Ok(variant), _ => Err(()) } } }
impl<Child> std::convert::TryInto<Num> for Calc<Child> { type Error = (); fn try_into(self) -> std::result::Result<Num, Self::Error> { match self { Self::Num(variant) => Ok(variant), _ => Err(()) } } }
impl<'a, MapOutput: 'a, Child> MapRef<'a, &'a Child, MapOutput> for Add<Child> { type OuterO = Add<MapOutput>; fn map<F>(&'a self, f: &mut F) -> Self::OuterO where F: FnMut(&'a Child) -> MapOutput { Add(f(&self.0), f(&self.1)) } }
impl<'a, MapOutput: 'a, Child> MapRef<'a, &'a Child, MapOutput> for Num { type OuterO = Num; fn map<F>(&'a self, f: &mut F) -> Self::OuterO where F: FnMut(&'a Child) -> MapOutput { Num(self.0.clone()) } }
impl<'a, MapOutput: 'a, Child> MapRef<'a, &'a Child, MapOutput> for Calc<Child> { type OuterO = Calc<MapOutput>; fn map<F>(&'a self, f: &mut F) -> Self::OuterO where F: FnMut(&'a Child) -> MapOutput { match self { Self::Add(variant) => variant.map(f).into(), Self::Num(variant) => variant.map(f).into() } } }
impl<MapOutput, Child> MapOwned<Child, MapOutput> for Add<Child> { type OuterO = Add<MapOutput>; fn map_owned<F>(self, f: &mut F) -> Self::OuterO where F: FnMut(Child) -> MapOutput { Add(f(self.0), f(self.1)) } }
impl<MapOutput, Child> MapOwned<Child, MapOutput> for Num { type OuterO = Num; fn map_owned<F>(self, f: &mut F) -> Self::OuterO where F: FnMut(Child) -> MapOutput { Num(self.0.clone()) } }
impl<Child, __Error> IntoResult<Add<Child>, __Error> for Add<std::result::Result<Child, __Error>> { fn into_result(self) -> std::result::Result<Add<Child>, __Error> { Ok(Add(self.0?, self.1?)) } }
impl<__Error> IntoResult<Num, __Error> for Num { fn into_result(self) -> std::result::Result<Num, __Error> { Ok(Num(self.0)) } }
impl<MapOutput, Child> MapOwned<Child, MapOutput> for Calc<Child> { type OuterO = Calc<MapOutput>; fn map_owned<F>(self, f: &mut F) -> Self::OuterO where F: FnMut(Child) -> MapOutput { match self { Self::Add(variant) => variant.map_owned(f).into(), Self::Num(variant) => variant.map_owned(f).into() } } }
impl<Child, __Error> IntoResult<Calc<Child>, __Error> for Calc<std::result::Result<Child, __Error>> { fn into_result(self) -> std::result::Result<Calc<Child>, __Error> { Ok(match self { Self::Add(variant) => variant.into_result()?.into(), Self::Num(variant) => variant.into_result()?.into() }) } }
pub trait CalcTree: Sized { fn as_ref(&self) -> Calc<&Self>; fn into_inner(self) -> Calc<Self>; fn fold<F, O>(self, f: &mut F) -> O where F: FnMut(Calc<O>) -> O { let arg = self.into_inner().map_owned(&mut |c| c.fold(f)); f(arg) } fn try_fold<F, O, E>(self, f: &mut F) -> std::result::Result<O, E> where F: FnMut(Calc<O>) -> std::result::Result<O, E> { let mut failure = None; let arg = self.into_inner().map_owned(&mut |c| if failure.is_some() { Err(()) } else { c.try_fold(f).map_err(|error| failure = Some(error)) }).into_result(); match (failure, arg) { (Some(error), _) => Err(error), (None, Ok(arg)) => f(arg), (None, Err(())) => unreachable!() } } fn iter_children<'a, I>(&'a self) -> std::vec::IntoIter<&'a Self> { let mut children = Vec::new(); self.as_ref().map(&mut |&c| children.push(c)); children.into_iter() } }

#[derive(Debug, PartialEq)]
struct Tree(Calc<Box<Tree>>);

impl CalcTree for Tree {
    fn as_ref(&self) -> Calc<&Self> {
        match &self.0 {
            Calc::Add(Add(left, right)) => Calc::Add(Add(left, right)),
            Calc::Num(Num(value)) => Calc::Num(Num(*value)),
        }
    }

    fn into_inner(self) -> Calc<Self> {
        match self.0 {
            Calc::Add(Add(left, right)) => Calc::Add(Add(*left, *right)),
            Calc::Num(node) => Calc::Num(node),
        }
    }
}

fn num(value: i32) -> Tree {
    Tree(Calc::Num(Num(value)))
}

fn add(left: Tree, right: Tree) -> Tree {
    Tree(Calc::Add(Add(Box::new(left), Box::new(right))))
}

fn emitted() -> String {
    let header = SchemaHeader {
        ident: "Calc".to_string(),
        derives: ["Map", "MapOwned", "From", "TryInto", "IntoResult"]
            .iter()
            .map(|name| DeriveEntry::Name(name.to_string()))
            .collect(),
        generics: Vec::new(),
    };
    let mut builder = EntishBuilder::new(&header);
    builder.add_node(&Variant {
        ident: "Add".to_string(),
        fields: Fields::positional(vec![TypeExpr::ident("Self"), TypeExpr::ident("Self")]),
    });
    builder.add_node(&Variant {
        ident: "Num".to_string(),
        fields: Fields::positional(vec![TypeExpr::ident("i32")]),
    });
    builder.source().ok().unwrap()
}

#[test]
fn emitted_try_fold_is_the_one_that_runs_here() {
    let text = emitted();
    assert!(text.contains("fn try_fold<F, O, E>(self, f: &mut F) -> std::result::Result<O, E> where F: FnMut(Calc<O>) -> std::result::Result<O, E> { let mut failure = None; let arg = self.into_inner().map_owned(&mut |c| if failure.is_some() { Err(()) } else { c.try_fold(f).map_err(|error| failure = Some(error)) }).into_result(); match (failure, arg) { (Some(error), _) => Err(error), (None, Ok(arg)) => f(arg), (None, Err(())) => unreachable!() } }"));
    assert!(text.contains("impl<Child, __Error> entish::IntoResult<Add<Child>, __Error> for Add<std::result::Result<Child, __Error>> { fn into_result(self) -> std::result::Result<Add<Child>, __Error> { Ok(Add(self.0?, self.1?)) } }"));
    assert!(text.contains("impl<MapOutput, Child> entish::MapOwned<Child, MapOutput> for Add<Child> { type OuterO = Add<MapOutput>; fn map_owned<F>(self, f: &mut F) -> Self::OuterO where F: FnMut(Child) -> MapOutput { Add(f(self.0), f(self.1)) } }"));
}

fn step(seen: &mut Vec<String>, op: Calc<i32>) -> Result<i32, String> {
    match op {
        Calc::Add(Add(left, right)) => {
            seen.push(format!("{} + {}", left, right));
            left.checked_add(right).ok_or("overflow".to_string())
        }
        Calc::Num(Num(value)) => {
            seen.push(value.to_string());
            if value < 0 {
                Err(format!("negative {}", value))
            } else {
                Ok(value)
            }
        }
    }
}

#[test]
fn emitted_try_fold_stops_at_the_first_failure() {
    // (1 + -2) + ((3 + 4) + -5): the fold fails at -2
    let tree = add(add(num(1), num(-2)), add(add(num(3), num(4)), num(-5)));
    let mut seen = Vec::new();
    let outcome = tree.try_fold(&mut |op| step(&mut seen, op));
    assert_eq!(outcome, Err("negative -2".to_string()));
    assert_eq!(seen, vec!["1".to_string(), "-2".to_string()]);
}

#[test]
fn emitted_try_fold_agrees_with_fold_where_nothing_fails() {
    let tree = add(add(num(1), num(2)), add(add(num(3), num(4)), num(5)));
    let mut seen = Vec::new();
    let outcome = tree.try_fold(&mut |op| step(&mut seen, op));
    assert_eq!(outcome, Ok(15));
    assert_eq!(seen, vec!["1", "2", "1 + 2", "3", "4", "3 + 4", "5", "7 + 5", "3 + 12"]);
    let tree = add(add(num(1), num(2)), num(3));
    let folded = tree.fold(&mut |op: Calc<i32>| match op {
        Calc::Add(Add(left, right)) => left + right,
        Calc::Num(Num(value)) => value,
    });
    assert_eq!(folded, 6);
}

#[test]
fn emitted_try_fold_fails_above_successful_children() {
    let tree = add(num(i32::MAX), num(1));
    let mut seen = Vec::new();
    let outcome = tree.try_fold(&mut |op| step(&mut seen, op));
    assert_eq!(outcome, Err("overflow".to_string()));
    assert_eq!(seen.len(), 3);
}

#[test]
fn emitted_conversions_are_the_ones_that_run_here() {
    let text = emitted();
    assert!(text.contains("impl<Child> From<Add<Child>> for Calc<Child> { fn from(variant: Add<Child>) -> Self { Self::Add(variant) } }"));
    assert!(text.contains("impl<Child> std::convert::TryInto<Add<Child>> for Calc<Child> { type Error = (); fn try_into(self) -> std::result::Result<Add<Child>, Self::Error> { match self { Self::Add(variant) => Ok(variant), _ => Err(()) } } }"));
    assert!(text.contains("impl<Child> std::convert::TryInto<Num> for Calc<Child> { type Error = (); fn try_into(self) -> std::result::Result<Num, Self::Error> { match self { Self::Num(variant) => Ok(variant), _ => Err(()) } } }"));
    assert!(text.contains("impl<'a, MapOutput: 'a, Child> entish::Map<'a, &'a Child, MapOutput> for Add<Child> { type OuterO = Add<MapOutput>; fn map<F>(&'a self, f: &mut F) -> Self::OuterO where F: FnMut(&'a Child) -> MapOutput { Add(f(&self.0), f(&self.1)) } }"));
    assert!(text.contains("impl<'a, MapOutput: 'a, Child> entish::Map<'a, &'a Child, MapOutput> for Calc<Child> { type OuterO = Calc<MapOutput>; fn map<F>(&'a self, f: &mut F) -> Self::OuterO where F: FnMut(&'a Child) -> MapOutput { match self { Self::Add(variant) => variant.map(f).into(), Self::Num(variant) => variant.map(f).into() } } }"));
    assert!(text.contains("fn iter_children<'a, I>(&'a self) -> std::vec::IntoIter<&'a Self> { let mut children = Vec::new(); self.as_ref().map(&mut |&c| children.push(c)); children.into_iter() } }"));
}

#[test]
fn emitted_inject_then_project_gives_the_node_back() {
    let node = Add(1u8, 2u8);
    let sum: Calc<u8> = node.clone().into();
    assert_eq!(sum, Calc::Add(node.clone()));
    let back: Result<Add<u8>, ()> = sum.clone().try_into();
    assert_eq!(back, Ok(node));
    let other: Result<Num, ()> = sum.try_into();
    assert_eq!(other, Err(()));
    let sum: Calc<u8> = Num(7).into();
    let back: Result<Num, ()> = sum.clone().try_into();
    assert_eq!(back, Ok(Num(7)));
    let other: Result<Add<u8>, ()> = sum.try_into();
    assert_eq!(other, Err(()));
}

#[test]
fn emitted_maps_with_identity_give_the_same_value() {
    for value in [Calc::Add(Add(1, 2)), Calc::Num(Num(3))] {
        assert_eq!(value.clone().map_owned(&mut |child: i32| child), value);
        let borrowed = value.map(&mut |child: &i32| child);
        assert_eq!(borrowed.map_owned(&mut |child: &i32| *child), value);
    }
    assert_eq!(Add(1, 2).map_owned(&mut |child: i32| child), Add(1, 2));
    assert_eq!(Add(1, 2).map(&mut |child: &i32| *child + 1), Add(2, 3));
}

#[test]
fn emitted_iter_children_yields_immediate_children_in_order() {
    let tree = add(add(num(1), num(2)), num(3));
    let children: Vec<&Tree> = tree.iter_children::<()>().collect();
    assert_eq!(children, vec![&add(num(1), num(2)), &num(3)]);
    assert_eq!(num(4).iter_children::<()>().count(), 0);
}

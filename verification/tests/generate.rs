use entish_derive::compile::{compile_node, CompiledTree};
use entish_derive::entish::{
    parse_derives, tokens_or_error, Capabilities, DeriveEntry, EntishBuilder, GenerationError,
    Node, NodeBuilder, SchemaHeader, SupportedDerives,
};
use entish_derive::schema::{Fields, GenericParam, NamedField, PositionalField, Variant};
use entish_derive::ty::{TypeExpr, TypeHead};

fn derives(names: &[&str]) -> Vec<DeriveEntry> {
    names.iter().map(|name| DeriveEntry::Name(name.to_string())).collect()
}

fn applied(name: &str, args: Vec<TypeExpr>) -> TypeExpr {
    TypeExpr { head: TypeHead::Path(vec![name.to_string()]), args }
}

fn binary(name: &str) -> Variant {
    Variant {
        ident: name.to_string(),
        fields: Fields::Named(vec![
            NamedField { prefix: String::new(), ident: "left".to_string(), ty: TypeExpr::ident("Self") },
            NamedField { prefix: String::new(), ident: "right".to_string(), ty: TypeExpr::ident("Self") },
        ]),
    }
}

fn arithmetic(names: &[&str]) -> EntishBuilder {
    let header = SchemaHeader {
        ident: "Arithmetic".to_string(),
        derives: derives(names),
        generics: Vec::new(),
    };
    let mut builder = EntishBuilder::new(&header);
    builder.add_node(&binary("Plus")).add_node(&binary("Times")).add_node(&Variant {
        ident: "Just".to_string(),
        fields: Fields::positional(vec![TypeExpr::ident("i32")]),
    });
    builder
}

fn compiled(names: &[&str]) -> CompiledTree {
    match arithmetic(names).compile() {
        Ok(tree) => tree,
        Err(error) => panic!("{}", error.message()),
    }
}

const ALL: [&str; 6] = ["Map", "MapOwned", "From", "TryInto", "IntoResult", "IntoOption"];

#[test]
fn node_definitions_keep_names_and_fields() {
    let tree = compiled(&[]);
    assert_eq!(tree.nodes.len(), 3);
    assert_eq!(tree.nodes[0].definition, "pub struct Plus<Child> { left: Child, right: Child }");
    assert_eq!(tree.nodes[1].definition, "pub struct Times<Child> { left: Child, right: Child }");
    assert_eq!(tree.nodes[2].definition, "pub struct Just(i32);");
}

#[test]
fn sum_type_wraps_each_node() {
    let tree = compiled(&[]);
    assert_eq!(
        tree.definition,
        "pub enum Arithmetic<Child> { Plus(Plus<Child>), Times(Times<Child>), Just(Just) }"
    );
}

#[test]
fn nothing_requested_nothing_derived() {
    let tree = compiled(&[]);
    for node in tree.nodes.iter() {
        assert!(node.inject.is_none());
        assert!(node.project.is_none());
        assert!(node.map.is_none());
        assert!(node.map_owned.is_none());
        assert!(node.into_result.is_none());
        assert!(node.into_option.is_none());
    }
    assert!(tree.map.is_none());
    assert!(tree.map_owned.is_none());
    assert!(tree.into_option.is_none());
    assert!(tree.into_result.is_none());
    assert!(!tree.interface.contains("try_fold"));
    let text = tree.source();
    assert!(!text.contains("impl"));
}

#[test]
fn each_capability_brings_its_own_items_only() {
    let tree = compiled(&["From"]);
    assert!(tree.nodes.iter().all(|node| node.inject.is_some() && node.project.is_none()));
    assert!(tree.nodes.iter().all(|node| node.map.is_none() && node.map_owned.is_none()));
    let tree = compiled(&["TryInto"]);
    assert!(tree.nodes.iter().all(|node| node.project.is_some() && node.inject.is_none()));
    let tree = compiled(&["Map"]);
    assert!(tree.nodes.iter().all(|node| node.map.is_some() && node.map_owned.is_none()));
    assert!(tree.map.is_some() && tree.map_owned.is_none());
    let tree = compiled(&["MapOwned"]);
    assert!(tree.nodes.iter().all(|node| node.map_owned.is_some() && node.map.is_none()));
    assert!(tree.map_owned.is_some() && tree.map.is_none());
    let tree = compiled(&["IntoResult"]);
    assert!(tree.nodes.iter().all(|node| node.into_result.is_some() && node.into_option.is_none()));
    assert!(tree.into_result.is_some() && tree.into_option.is_none());
    assert!(tree.interface.contains("fn try_fold<F, O, E>"));
    let tree = compiled(&["IntoOption"]);
    assert!(tree.nodes.iter().all(|node| node.into_option.is_some() && node.into_result.is_none()));
    assert!(tree.into_option.is_some() && tree.into_result.is_none());
    assert!(!tree.interface.contains("try_fold"));
}

#[test]
fn inject_wraps_node_as_variant() {
    let tree = compiled(&ALL);
    assert_eq!(
        tree.nodes[0].inject.as_deref(),
        Some("impl<Child> From<Plus<Child>> for Arithmetic<Child> { fn from(variant: Plus<Child>) -> Self { Self::Plus(variant) } }")
    );
    assert_eq!(
        tree.nodes[2].inject.as_deref(),
        Some("impl<Child> From<Just> for Arithmetic<Child> { fn from(variant: Just) -> Self { Self::Just(variant) } }")
    );
}

#[test]
fn project_unwraps_or_fails_with_unit() {
    let tree = compiled(&ALL);
    assert_eq!(
        tree.nodes[2].project.as_deref(),
        Some("impl<Child> std::convert::TryInto<Just> for Arithmetic<Child> { type Error = (); fn try_into(self) -> std::result::Result<Just, Self::Error> { match self { Self::Just(variant) => Ok(variant), _ => Err(()) } } }")
    );
}

#[test]
fn borrowed_map_applies_function_to_children() {
    let tree = compiled(&ALL);
    assert_eq!(
        tree.nodes[0].map.as_deref(),
        Some("impl<'a, MapOutput: 'a, Child> entish::Map<'a, &'a Child, MapOutput> for Plus<Child> { type OuterO = Plus<MapOutput>; fn map<F>(&'a self, f: &mut F) -> Self::OuterO where F: FnMut(&'a Child) -> MapOutput { Plus { left: f(&self.left), right: f(&self.right) } } }")
    );
    assert_eq!(
        tree.nodes[2].map.as_deref(),
        Some("impl<'a, MapOutput: 'a, Child> entish::Map<'a, &'a Child, MapOutput> for Just { type OuterO = Just; fn map<F>(&'a self, f: &mut F) -> Self::OuterO where F: FnMut(&'a Child) -> MapOutput { Just(self.0.clone()) } }")
    );
}

#[test]
fn owned_map_moves_children() {
    let tree = compiled(&ALL);
    assert_eq!(
        tree.nodes[1].map_owned.as_deref(),
        Some("impl<MapOutput, Child> entish::MapOwned<Child, MapOutput> for Times<Child> { type OuterO = Times<MapOutput>; fn map_owned<F>(self, f: &mut F) -> Self::OuterO where F: FnMut(Child) -> MapOutput { Times { left: f(self.left), right: f(self.right) } } }")
    );
    assert_eq!(
        tree.nodes[2].map_owned.as_deref(),
        Some("impl<MapOutput, Child> entish::MapOwned<Child, MapOutput> for Just { type OuterO = Just; fn map_owned<F>(self, f: &mut F) -> Self::OuterO where F: FnMut(Child) -> MapOutput { Just(self.0.clone()) } }")
    );
}

#[test]
fn result_sequencing_unwraps_fields_in_order() {
    let tree = compiled(&ALL);
    assert_eq!(
        tree.nodes[0].into_result.as_deref(),
        Some("impl<Child, __Error> entish::IntoResult<Plus<Child>, __Error> for Plus<std::result::Result<Child, __Error>> { fn into_result(self) -> std::result::Result<Plus<Child>, __Error> { Ok(Plus { left: self.left?, right: self.right? }) } }")
    );
    assert_eq!(
        tree.nodes[2].into_result.as_deref(),
        Some("impl<__Error> entish::IntoResult<Just, __Error> for Just<> { fn into_result(self) -> std::result::Result<Just, __Error> { Ok(Just(self.0)) } }")
    );
}

#[test]
fn option_sequencing_unwraps_fields_in_order() {
    let tree = compiled(&ALL);
    assert_eq!(
        tree.nodes[0].into_option.as_deref(),
        Some("impl<Child> entish::IntoOption<Plus<Child>> for Plus<Option<Child>> { fn into_option(self) -> Option<Plus<Child>> { Some(Plus { left: self.left?, right: self.right? }) } }")
    );
    assert_eq!(
        tree.nodes[2].into_option.as_deref(),
        Some("impl entish::IntoOption<Just> for Just<> { fn into_option(self) -> Option<Just> { Some(Just(self.0)) } }")
    );
}

#[test]
fn sum_type_operations_dispatch_on_variant() {
    let tree = compiled(&ALL);
    assert_eq!(
        tree.map.as_deref(),
        Some("impl<'a, MapOutput: 'a, Child> entish::Map<'a, &'a Child, MapOutput> for Arithmetic<Child> { type OuterO = Arithmetic<MapOutput>; fn map<F>(&'a self, f: &mut F) -> Self::OuterO where F: FnMut(&'a Child) -> MapOutput { match self { Self::Plus(variant) => variant.map(f).into(), Self::Times(variant) => variant.map(f).into(), Self::Just(variant) => variant.map(f).into() } } }")
    );
    assert_eq!(
        tree.map_owned.as_deref(),
        Some("impl<MapOutput, Child> entish::MapOwned<Child, MapOutput> for Arithmetic<Child> { type OuterO = Arithmetic<MapOutput>; fn map_owned<F>(self, f: &mut F) -> Self::OuterO where F: FnMut(Child) -> MapOutput { match self { Self::Plus(variant) => variant.map_owned(f).into(), Self::Times(variant) => variant.map_owned(f).into(), Self::Just(variant) => variant.map_owned(f).into() } } }")
    );
    assert_eq!(
        tree.into_option.as_deref(),
        Some("impl<Child> entish::IntoOption<Arithmetic<Child>> for Arithmetic<Option<Child>> { fn into_option(self) -> Option<Arithmetic<Child>> { Some(match self { Self::Plus(variant) => variant.into_option()?.into(), Self::Times(variant) => variant.into_option()?.into(), Self::Just(variant) => variant.into_option()?.into() }) } }")
    );
    assert_eq!(
        tree.into_result.as_deref(),
        Some("impl<Child, __Error> entish::IntoResult<Arithmetic<Child>, __Error> for Arithmetic<std::result::Result<Child, __Error>> { fn into_result(self) -> std::result::Result<Arithmetic<Child>, __Error> { Ok(match self { Self::Plus(variant) => variant.into_result()?.into(), Self::Times(variant) => variant.into_result()?.into(), Self::Just(variant) => variant.into_result()?.into() }) } }")
    );
}

#[test]
fn interface_declares_recursion_entry() {
    let tree = compiled(&["Map", "MapOwned"]);
    assert_eq!(
        tree.interface,
        "pub trait ArithmeticTree: Sized { fn as_ref(&self) -> Arithmetic<&Self>; fn into_inner(self) -> Arithmetic<Self>; fn fold<F, O>(self, f: &mut F) -> O where F: FnMut(Arithmetic<O>) -> O { let arg = self.into_inner().map_owned(&mut |c| c.fold(f)); f(arg) } fn iter_children<'a, I>(&'a self) -> std::vec::IntoIter<&'a Self> { let mut children = Vec::new(); self.as_ref().map(&mut |&c| children.push(c)); children.into_iter() } }"
    );
    let tree = compiled(&["Map", "MapOwned", "IntoResult"]);
    assert!(tree.interface.contains(
        "fn try_fold<F, O, E>(self, f: &mut F) -> std::result::Result<O, E> where F: FnMut(Arithmetic<O>) -> std::result::Result<O, E> { let mut failure = None; let arg = self.into_inner().map_owned(&mut |c| if failure.is_some() { Err(()) } else { c.try_fold(f).map_err(|error| failure = Some(error)) }).into_result(); match (failure, arg) { (Some(error), _) => Err(error), (None, Ok(arg)) => f(arg), (None, Err(())) => unreachable!() } } "
    ));
}

#[test]
fn source_lists_items_in_order() {
    let tree = compiled(&["From"]);
    let expected = [
        tree.nodes[0].definition.clone(),
        tree.nodes[0].inject.clone().unwrap(),
        tree.nodes[1].definition.clone(),
        tree.nodes[1].inject.clone().unwrap(),
        tree.nodes[2].definition.clone(),
        tree.nodes[2].inject.clone().unwrap(),
        tree.interface.clone(),
        tree.definition.clone(),
    ]
    .join("\n")
        + "\n";
    assert_eq!(tree.source(), expected);
    assert_eq!(arithmetic(&["From"]).source().ok(), Some(expected));
}

fn generic_tree() -> EntishBuilder {
    let header = SchemaHeader {
        ident: "Tree".to_string(),
        derives: derives(&ALL),
        generics: vec![
            GenericParam::Type { ident: "K".to_string(), bounds: Vec::new() },
            GenericParam::Lifetime { ident: "x".to_string() },
            GenericParam::Type { ident: "V".to_string(), bounds: vec![TypeExpr::ident("Copy")] },
        ],
    };
    let mut builder = EntishBuilder::new(&header);
    builder.add_node(&Variant {
        ident: "Leaf".to_string(),
        fields: Fields::positional(vec![TypeExpr::ident("V")]),
    });
    builder.add_node(&Variant {
        ident: "Branch".to_string(),
        fields: Fields::positional(vec![applied("Vec", vec![TypeExpr::ident("Self")])]),
    });
    builder.add_node(&Variant {
        ident: "Entry".to_string(),
        fields: Fields::Named(vec![
            NamedField { prefix: String::new(), ident: "key".to_string(), ty: TypeExpr::ident("K") },
            NamedField {
                prefix: String::new(),
                ident: "rest".to_string(),
                ty: applied("Box", vec![TypeExpr::ident("Self")]),
            },
            NamedField { prefix: String::new(), ident: "next".to_string(), ty: TypeExpr::ident("Self") },
        ]),
    });
    builder.add_node(&Variant { ident: "Nil".to_string(), fields: Fields::Unit });
    builder
}

fn callback(from: TypeExpr, to: TypeExpr) -> TypeExpr {
    applied(
        "Box",
        vec![TypeExpr {
            head: TypeHead::Syntax(vec!["dyn ".to_string(), "(".to_string(), ") -> ".to_string(), String::new()]),
            args: vec![TypeExpr::ident("Fn"), from, to],
        }],
    )
}

#[test]
fn parameters_inside_function_types_are_declared_and_renamed() {
    let header = SchemaHeader {
        ident: "Step".to_string(),
        derives: derives(&["Map"]),
        generics: vec![
            GenericParam::plain("T".to_string()),
            GenericParam::plain("U".to_string()),
        ],
    };
    let mut builder = EntishBuilder::new(&header);
    builder.add_node(&Variant {
        ident: "Call".to_string(),
        fields: Fields::positional(vec![callback(TypeExpr::ident("T"), TypeExpr::ident("T"))]),
    });
    builder.add_node(&Variant {
        ident: "Then".to_string(),
        fields: Fields::positional(vec![TypeExpr {
            head: TypeHead::Syntax(vec!["fn(".to_string(), ") -> ".to_string(), String::new()]),
            args: vec![TypeExpr::ident("Self"), TypeExpr::ident("i32")],
        }]),
    });
    let tree = builder.compile().ok().unwrap();
    assert_eq!(tree.nodes[0].definition, "pub struct Call<T>(Box<dyn Fn(T) -> T>);");
    assert_eq!(tree.nodes[1].definition, "pub struct Then<Child>(fn(Child) -> i32);");
    assert!(tree.nodes[1].map.as_deref().unwrap().contains(
        "Then(<fn(Child) -> i32 as Map<&'a Child, MapOutput>>::map(&self.0, f))"
    ));
}

#[test]
fn fields_are_declared_as_the_schema_wrote_them() {
    let header = SchemaHeader {
        ident: "Shape".to_string(),
        derives: derives(&["Map", "IntoResult"]),
        generics: Vec::new(),
    };
    let mut builder = EntishBuilder::new(&header);
    builder.add_node(&Variant {
        ident: "Pair".to_string(),
        fields: Fields::Named(vec![
            NamedField { prefix: "pub ".to_string(), ident: "left".to_string(), ty: TypeExpr::ident("Self") },
            NamedField {
                prefix: "#[allow(unused)] pub(crate) ".to_string(),
                ident: "right".to_string(),
                ty: TypeExpr::ident("Self"),
            },
            NamedField::plain("tag", TypeExpr::ident("u8")),
        ]),
    });
    builder.add_node(&Variant {
        ident: "Leaf".to_string(),
        fields: Fields::Unnamed(vec![
            PositionalField { prefix: "pub ".to_string(), ty: TypeExpr::ident("i32") },
            PositionalField { prefix: String::new(), ty: TypeExpr::ident("Self") },
        ]),
    });
    let tree = builder.compile().ok().unwrap();
    assert_eq!(
        tree.nodes[0].definition,
        "pub struct Pair<Child> { pub left: Child, #[allow(unused)] pub(crate) right: Child, tag: u8 }"
    );
    assert_eq!(tree.nodes[1].definition, "pub struct Leaf<Child>(pub i32, Child);");
    // what stands before a field is part of its declaration only
    assert!(tree.nodes[0].map.as_deref().unwrap().contains(
        "Pair { left: f(&self.left), right: f(&self.right), tag: self.tag.clone() }"
    ));
    assert!(tree.nodes[1].into_result.as_deref().unwrap().contains("Ok(Leaf(self.0, self.1?))"));
    let tokens = {
        let mut builder = EntishBuilder::new(&header);
        builder.add_node(&Variant {
            ident: "Leaf".to_string(),
            fields: Fields::Unnamed(vec![PositionalField {
                prefix: "pub ".to_string(),
                ty: TypeExpr::ident("i32"),
            }]),
        });
        builder.generate().ok().unwrap()
    };
    let file = syn::parse2::<syn::File>(tokens).expect("the items parse");
    match &file.items[0] {
        syn::Item::Struct(item) => {
            let field = item.fields.iter().next().unwrap();
            assert!(matches!(field.vis, syn::Visibility::Public(_)));
        }
        _ => panic!("the first item is the node type"),
    }
}

#[test]
fn unmentioned_parameters_are_pruned() {
    let tree = generic_tree().compile().ok().unwrap();
    assert_eq!(tree.nodes[0].definition, "pub struct Leaf<V>(V);");
    assert_eq!(tree.nodes[1].definition, "pub struct Branch<Child>(Vec<Child>);");
    assert_eq!(
        tree.nodes[2].definition,
        "pub struct Entry<K, Child> { key: K, rest: Box<Child>, next: Child }"
    );
    assert_eq!(tree.nodes[3].definition, "pub struct Nil;");
    assert_eq!(
        tree.definition,
        "pub enum Tree<K, 'x, V: Copy, Child> { Leaf(Leaf<V>), Branch(Branch<Child>), Entry(Entry<K, Child>), Nil(Nil) }"
    );
}

#[test]
fn container_fields_delegate_and_leaves_are_cloned() {
    let tree = generic_tree().compile().ok().unwrap();
    assert_eq!(
        tree.nodes[2].map.as_deref(),
        Some("impl<'a, MapOutput: 'a, K: 'a, Child> entish::Map<'a, &'a Child, MapOutput> for Entry<K, Child> where K: Clone { type OuterO = Entry<K, MapOutput>; fn map<F>(&'a self, f: &mut F) -> Self::OuterO where F: FnMut(&'a Child) -> MapOutput { Entry { key: self.key.clone(), rest: <Box<Child> as Map<&'a Child, MapOutput>>::map(&self.rest, f), next: f(&self.next) } } }")
    );
    assert_eq!(
        tree.nodes[1].map_owned.as_deref(),
        Some("impl<MapOutput, Child> entish::MapOwned<Child, MapOutput> for Branch<Child> { type OuterO = Branch<MapOutput>; fn map_owned<F>(self, f: &mut F) -> Self::OuterO where F: FnMut(Child) -> MapOutput { Branch(<Vec<Child> as MapOwned<Child, MapOutput>>::map_owned(self.0, f)) } }")
    );
    assert_eq!(
        tree.nodes[0].map.as_deref(),
        Some("impl<'a, MapOutput: 'a, V: 'a, Child> entish::Map<'a, &'a Child, MapOutput> for Leaf<V> where V: Clone { type OuterO = Leaf<V>; fn map<F>(&'a self, f: &mut F) -> Self::OuterO where F: FnMut(&'a Child) -> MapOutput { Leaf(self.0.clone()) } }")
    );
    assert_eq!(
        tree.nodes[3].map.as_deref(),
        Some("impl<'a, MapOutput: 'a, Child> entish::Map<'a, &'a Child, MapOutput> for Nil { type OuterO = Nil; fn map<F>(&'a self, f: &mut F) -> Self::OuterO where F: FnMut(&'a Child) -> MapOutput { Nil } }")
    );
}

#[test]
fn sequencing_delegates_to_containers() {
    let tree = generic_tree().compile().ok().unwrap();
    assert_eq!(
        tree.nodes[2].into_result.as_deref(),
        Some("impl<K, Child, __Error> entish::IntoResult<Entry<K, Child>, __Error> for Entry<K, std::result::Result<Child, __Error>> { fn into_result(self) -> std::result::Result<Entry<K, Child>, __Error> { Ok(Entry { key: self.key, rest: self.rest.into_result()?, next: self.next? }) } }")
    );
    assert_eq!(
        tree.nodes[1].into_option.as_deref(),
        Some("impl<Child> entish::IntoOption<Branch<Child>> for Branch<Option<Child>> { fn into_option(self) -> Option<Branch<Child>> { Some(Branch(self.0.into_option()?)) } }")
    );
}

#[test]
fn sum_type_of_generic_schema() {
    let tree = generic_tree().compile().ok().unwrap();
    assert_eq!(
        tree.map.as_deref(),
        Some("impl<'a, MapOutput: 'a, K: 'a, 'x, V: Copy + 'a, Child> entish::Map<'a, &'a Child, MapOutput> for Tree<K, 'x, V, Child> where K: Clone, V: Clone { type OuterO = Tree<K, 'x, V, MapOutput>; fn map<F>(&'a self, f: &mut F) -> Self::OuterO where F: FnMut(&'a Child) -> MapOutput { match self { Self::Leaf(variant) => variant.map(f).into(), Self::Branch(variant) => variant.map(f).into(), Self::Entry(variant) => variant.map(f).into(), Self::Nil(variant) => variant.map(f).into() } } }")
    );
    assert!(tree.interface.starts_with(
        "pub trait TreeTree<K, 'x, V: Copy>: Sized where K: Clone, V: Clone { fn as_ref(&self) -> Tree<K, 'x, V, &Self>; fn into_inner(self) -> Tree<K, 'x, V, Self>; fn fold<F, O>(self, f: &mut F) -> O where F: FnMut(Tree<K, 'x, V, O>) -> O {"
    ));
}

#[test]
fn unsupported_capability_is_named() {
    let outcome = arithmetic(&["From", "Debug", "Map"]).compile();
    match outcome {
        Err(GenerationError::UnsupportedCapability(name)) => assert_eq!(name, "Debug"),
        _ => panic!("expected the unsupported capability"),
    }
    let error = GenerationError::UnsupportedCapability("Debug".to_string());
    assert_eq!(error.message(), "unsupported capability: Debug");
}

#[test]
fn non_identifier_entry_is_refused() {
    let header = SchemaHeader {
        ident: "Arithmetic".to_string(),
        derives: vec![DeriveEntry::Name("From".to_string()), DeriveEntry::Other],
        generics: Vec::new(),
    };
    let outcome = EntishBuilder::new(&header).source();
    assert!(matches!(outcome, Err(GenerationError::NonIdentifierEntry)));
    assert_eq!(
        GenerationError::NonIdentifierEntry.message(),
        "only bare capability names allowed"
    );
}

#[test]
fn first_faulty_entry_decides_the_error() {
    let entries = vec![
        DeriveEntry::Name("Map".to_string()),
        DeriveEntry::Other,
        DeriveEntry::Name("Clone".to_string()),
    ];
    assert!(matches!(parse_derives(&entries), Err(GenerationError::NonIdentifierEntry)));
    let entries = vec![
        DeriveEntry::Name("map".to_string()),
        DeriveEntry::Other,
    ];
    match parse_derives(&entries) {
        Err(GenerationError::UnsupportedCapability(name)) => assert_eq!(name, "map"),
        _ => panic!("expected the unsupported capability"),
    }
}

#[test]
fn request_list_gives_capability_set() {
    let entries = derives(&["Map", "IntoOption", "Map"]);
    let capabilities = parse_derives(&entries).ok().unwrap();
    assert!(capabilities.contains(SupportedDerives::MapRef));
    assert!(capabilities.contains(SupportedDerives::IntoOption));
    assert!(!capabilities.contains(SupportedDerives::MapOwned));
    assert!(!capabilities.contains(SupportedDerives::From));
    assert!(!capabilities.contains(SupportedDerives::TryInto));
    assert!(!capabilities.contains(SupportedDerives::IntoResult));
    let empty = parse_derives(&Vec::new()).ok().unwrap();
    assert!(!empty.contains(SupportedDerives::MapRef));
}

#[test]
fn capability_names_are_the_six() {
    let name = |text: &str| SupportedDerives::try_from(&text.to_string());
    assert_eq!(name("TryInto"), Some(SupportedDerives::TryInto));
    assert_eq!(name("From"), Some(SupportedDerives::From));
    assert_eq!(name("Map"), Some(SupportedDerives::MapRef));
    assert_eq!(name("MapOwned"), Some(SupportedDerives::MapOwned));
    assert_eq!(name("IntoResult"), Some(SupportedDerives::IntoResult));
    assert_eq!(name("IntoOption"), Some(SupportedDerives::IntoOption));
    assert_eq!(name("Clone"), None);
    assert_eq!(name(""), None);
    assert_eq!(name("from"), None);
}

#[test]
fn capability_set_insert_and_contains() {
    let mut capabilities = Capabilities::new();
    assert!(!capabilities.contains(SupportedDerives::From));
    capabilities.insert(SupportedDerives::From);
    capabilities.insert(SupportedDerives::From);
    assert!(capabilities.contains(SupportedDerives::From));
    assert!(!capabilities.contains(SupportedDerives::TryInto));
}

#[test]
fn whole_tree_marker_becomes_recursive_position() {
    let header = SchemaHeader {
        ident: "List".to_string(),
        derives: Vec::new(),
        generics: Vec::new(),
    };
    let mut builder = EntishBuilder::new(&header);
    assert!(!builder.has_node(&"Cons".to_string()));
    builder.add_node(&Variant {
        ident: "Cons".to_string(),
        fields: Fields::positional(vec![
            TypeExpr::ident("u8"),
            applied("Option", vec![applied("Box", vec![TypeExpr::ident("Self")])]),
        ]),
    });
    assert!(builder.has_node(&"Cons".to_string()));
    assert!(!builder.has_node(&"Nil".to_string()));
    assert_eq!(builder.get_generic_idents(), vec!["Child".to_string()]);
    let tree = builder.compile().ok().unwrap();
    assert_eq!(tree.nodes[0].definition, "pub struct Cons<Child>(u8, Option<Box<Child>>);");
}

#[test]
fn generic_idents_are_type_parameters_in_order() {
    assert_eq!(
        generic_tree().get_generic_idents(),
        vec!["K".to_string(), "V".to_string(), "Child".to_string()]
    );
}

#[test]
fn node_builder_counts_only_given_names() {
    let generics = vec![
        GenericParam::Type { ident: "A".to_string(), bounds: vec![TypeExpr::ident("Ord")] },
        GenericParam::Type { ident: "B".to_string(), bounds: Vec::new() },
        GenericParam::Const { ident: "N".to_string(), ty: TypeExpr::ident("usize") },
    ];
    let variant = Variant {
        ident: "Pair".to_string(),
        fields: Fields::positional(vec![TypeExpr::ident("A"), TypeExpr::ident("B"), TypeExpr::ident("N")]),
    };
    let node: Node = NodeBuilder::from_variant(&generics, &variant).generate();
    assert!(node.generics.is_empty());
    let mut builder = NodeBuilder::from_variant(&generics, &variant);
    builder.extend_closure(&vec!["B".to_string(), "N".to_string(), "Z".to_string()]);
    let node = builder.generate();
    assert_eq!(node.ident, "Pair");
    assert_eq!(node.generics.len(), 1);
    assert!(matches!(&node.generics[0], GenericParam::Type { ident, bounds } if ident == "B" && bounds.is_empty()));
    let mut builder = NodeBuilder::from_variant(&generics, &variant);
    builder.extend_closure(&vec!["A".to_string()]);
    builder.extend_closure(&vec!["B".to_string()]);
    let node = builder.generate();
    assert_eq!(node.generics.len(), 2);
    assert!(matches!(&node.generics[0], GenericParam::Type { ident, bounds } if ident == "A" && bounds.is_empty()));
    assert!(matches!(&node.generics[1], GenericParam::Type { ident, .. } if ident == "B"));
}

#[test]
fn compile_node_alone() {
    let node = Node {
        ident: "Wrap".to_string(),
        generics: vec![GenericParam::plain("Child".to_string())],
        fields: Fields::positional(vec![TypeExpr::ident("Child")]),
    };
    let mut capabilities = Capabilities::new();
    capabilities.insert(SupportedDerives::IntoOption);
    let compiled = compile_node(
        node,
        &"Sum".to_string(),
        &vec![GenericParam::plain("Child".to_string())],
        &capabilities,
    );
    assert_eq!(compiled.definition, "pub struct Wrap<Child>(Child);");
    assert_eq!(
        compiled.into_option.as_deref(),
        Some("impl<Child> entish::IntoOption<Wrap<Child>> for Wrap<Option<Child>> { fn into_option(self) -> Option<Wrap<Child>> { Some(Wrap(self.0?)) } }")
    );
    assert!(compiled.inject.is_none());
    assert_eq!(
        compiled.source(),
        format!("{}\n{}\n", compiled.definition, compiled.into_option.clone().unwrap())
    );
}

#[test]
fn generated_tokens_are_rust_items() {
    let tokens = match arithmetic(&ALL).generate() {
        Ok(tokens) => tokens,
        Err(error) => panic!("{}", error.message()),
    };
    let file = syn::parse2::<syn::File>(tokens).expect("the items parse");
    // three nodes with their definition and six items each, four operations
    // of the sum type, the trait and the sum type
    assert_eq!(file.items.len(), 3 * 7 + 4 + 2);
    assert!(matches!(&file.items[0], syn::Item::Struct(item) if item.ident == "Plus"));
    assert!(matches!(file.items.last(), Some(syn::Item::Enum(item)) if item.ident == "Arithmetic" && item.variants.len() == 3));
    let tokens = generic_tree().generate().ok().unwrap();
    let file = syn::parse2::<syn::File>(tokens).expect("the items parse");
    assert_eq!(file.items.len(), 4 * 7 + 4 + 2);
}

#[test]
fn generate_reports_request_faults() {
    assert!(matches!(
        arithmetic(&["Display"]).generate(),
        Err(GenerationError::UnsupportedCapability(_))
    ));
}

#[test]
fn text_that_is_no_token_stream_is_refused() {
    let header = SchemaHeader {
        ident: "Broken\"".to_string(),
        derives: Vec::new(),
        generics: Vec::new(),
    };
    let outcome = EntishBuilder::new(&header).generate();
    assert!(matches!(outcome, Err(GenerationError::Unlexable)));
    assert_eq!(
        GenerationError::Unlexable.message(),
        "the generated source is not made of Rust tokens"
    );
}

#[test]
fn lexer_outcome_is_passed_on() {
    let lexed = "struct A ;".parse::<proc_macro2::TokenStream>();
    let tokens = tokens_or_error(lexed).ok().unwrap();
    assert_eq!(tokens.to_string(), "struct A ;");
    let lexed = "struct A { ".parse::<proc_macro2::TokenStream>();
    assert!(matches!(tokens_or_error(lexed), Err(GenerationError::Unlexable)));
}

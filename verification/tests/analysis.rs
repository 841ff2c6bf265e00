use entish_derive::emit::{write_field_expr, Traversal};
use entish_derive::entish::{
    add_bound_to_all, all_but_ident, classify, contains_ident, is_ident,
    where_clause_for_generics,
};
use entish_derive::schema::{Fields, GenericParam, NamedField, Shape, Variant};
use entish_derive::text::{contains_name, decimal_text, join, terminate};
use entish_derive::ty::{angle, FieldKind, TypeExpr, TypeHead};
use entish_derive::utils::{map_fields, FindIdent, MentionedGenerics, ReplaceIdent};

fn text(value: &str) -> String {
    value.to_string()
}

fn path(segments: &[&str], args: Vec<TypeExpr>) -> TypeExpr {
    TypeExpr::path(segments.iter().map(|segment| segment.to_string()).collect(), args)
}

fn syntax(pieces: &[&str], args: Vec<TypeExpr>) -> TypeExpr {
    TypeExpr {
        head: TypeHead::Syntax(pieces.iter().map(|piece| piece.to_string()).collect()),
        args,
    }
}

fn name(ident: &str) -> TypeExpr {
    TypeExpr { head: TypeHead::Name(text(ident)), args: Vec::new() }
}

/// `&'a mut T`
fn reference(to: TypeExpr) -> TypeExpr {
    syntax(&["&'", " mut ", ""], vec![name("a"), to])
}

/// `fn(A) -> B`
fn function(from: TypeExpr, to: TypeExpr) -> TypeExpr {
    syntax(&["fn(", ") -> ", ""], vec![from, to])
}

/// `Box<dyn Fn(A) -> B + 'a>`
fn boxed_function(from: TypeExpr, to: TypeExpr) -> TypeExpr {
    path(
        &["Box"],
        vec![syntax(
            &["dyn ", "(", ") -> ", " + '", ""],
            vec![TypeExpr::ident("Fn"), from, to, name("a")],
        )],
    )
}

/// `std::collections::HashMap<K, (Vec<Child>, &'a mut [u8; 4])>`
fn nested() -> TypeExpr {
    path(
        &["std", "collections", "HashMap"],
        vec![
            TypeExpr::ident("K"),
            TypeExpr {
                head: TypeHead::Tuple,
                args: vec![
                    path(&["Vec"], vec![TypeExpr::ident("Child")]),
                    reference(syntax(&["[", "; 4]"], vec![TypeExpr::ident("u8")])),
                ],
            },
        ],
    )
}

#[test]
fn types_render_as_source() {
    assert_eq!(TypeExpr::ident("i32").render(), "i32");
    assert_eq!(
        nested().render(),
        "std::collections::HashMap<K, (Vec<Child>, &'a mut [u8; 4], )>"
    );
    let unit = TypeExpr { head: TypeHead::Tuple, args: Vec::new() };
    assert_eq!(unit.render(), "()");
    let single = TypeExpr { head: TypeHead::Tuple, args: vec![TypeExpr::ident("T")] };
    assert_eq!(single.render(), "(T, )");
    assert_eq!(
        function(TypeExpr::ident("Child"), TypeExpr::ident("i32")).render(),
        "fn(Child) -> i32"
    );
    assert_eq!(
        boxed_function(TypeExpr::ident("T"), TypeExpr::ident("T")).render(),
        "Box<dyn Fn(T) -> T + 'a>"
    );
    let projection = syntax(
        &["<", " as ", ">::", ""],
        vec![TypeExpr::ident("T"), TypeExpr::ident("Iterator"), TypeExpr::ident("Item")],
    );
    assert_eq!(projection.render(), "<T as Iterator>::Item");
    assert_eq!(syntax(&["!"], Vec::new()).render(), "!");
    assert_eq!(syntax(&[], vec![TypeExpr::ident("A"), TypeExpr::ident("B")]).render(), "AB");
    assert_eq!(syntax(&["a", "b", "c"], vec![TypeExpr::ident("X")]).render(), "aXbc");
    assert_eq!(name("a").render(), "a");
    let call = TypeExpr { head: TypeHead::Opaque(text("make!(Child)")), args: Vec::new() };
    assert_eq!(call.render(), "make!(Child)");
}

#[test]
fn clone_keeps_the_type() {
    assert_eq!(nested().clone().render(), nested().render());
}

#[test]
fn bare_identifier_is_told_from_nesting() {
    let child = text("Child");
    assert!(is_ident(&TypeExpr::ident("Child"), &child));
    assert!(!is_ident(&path(&["Vec"], vec![TypeExpr::ident("Child")]), &child));
    assert!(!is_ident(&path(&["Child"], vec![TypeExpr::ident("T")]), &child));
    assert!(!is_ident(&path(&["a", "Child"], Vec::new()), &child));
    assert!(!is_ident(&TypeExpr::ident("Children"), &child));
    assert!(!is_ident(&TypeExpr { head: TypeHead::Tuple, args: Vec::new() }, &child));
    assert!(TypeExpr::ident("Child").is_bare(&child));
}

#[test]
fn identifier_is_found_at_any_depth() {
    let child = text("Child");
    assert!(contains_ident(&TypeExpr::ident("Child"), &child));
    assert!(contains_ident(&nested(), &child));
    assert!(contains_ident(&nested(), &text("std")));
    assert!(contains_ident(&nested(), &text("u8")));
    assert!(!contains_ident(&nested(), &text("Vec<Child>")));
    assert!(!contains_ident(&TypeExpr::ident("i32"), &child));
    assert!(contains_ident(&function(TypeExpr::ident("Child"), TypeExpr::ident("i32")), &child));
    assert!(contains_ident(&function(TypeExpr::ident("i32"), TypeExpr::ident("Child")), &child));
    assert!(contains_ident(
        &boxed_function(TypeExpr::ident("T"), path(&["Vec"], vec![TypeExpr::ident("Child")])),
        &child
    ));
    assert!(contains_ident(&boxed_function(TypeExpr::ident("T"), TypeExpr::ident("T")), &text("Fn")));
    // the name of a lifetime is an identifier too
    assert!(contains_ident(&nested(), &text("a")));
    assert!(contains_ident(&reference(TypeExpr::ident("u8")), &text("a")));
    assert!(!contains_ident(&reference(TypeExpr::ident("u8")), &text("mut")));
    assert!(!contains_ident(&function(TypeExpr::ident("i32"), TypeExpr::ident("i32")), &text("fn")));
}

#[test]
fn fields_are_classified_in_one_of_three_kinds() {
    let child = text("Child");
    assert_eq!(classify(&TypeExpr::ident("Child"), &child), FieldKind::Child);
    assert_eq!(classify(&nested(), &child), FieldKind::Container);
    assert_eq!(classify(&TypeExpr::ident("i32"), &child), FieldKind::Leaf);
}

#[test]
fn finder_remembers_a_match() {
    let mut finder = FindIdent::new(text("Child"));
    assert!(!finder.matched());
    assert_eq!(finder.fold_ident(text("Other")), "Other");
    assert!(!finder.matched());
    let back = finder.fold_type(TypeExpr::ident("i32"));
    assert_eq!(back.render(), "i32");
    assert!(!finder.matched());
    let back = finder.fold_type(nested());
    assert_eq!(back.render(), nested().render());
    assert!(finder.matched());
    let _ = finder.fold_type(TypeExpr::ident("i32"));
    assert!(finder.matched());
    let mut finder = FindIdent::new(text("Child"));
    assert_eq!(finder.fold_ident(text("Child")), "Child");
    assert!(finder.matched());
}

#[test]
fn replacement_reaches_every_segment() {
    let visitor = ReplaceIdent::replace_with(text("Self"), text("Child"));
    assert_eq!(visitor.fold_ident(text("Self")), "Child");
    assert_eq!(visitor.fold_ident(text("Selfish")), "Selfish");
    let ty = path(
        &["Self", "Assoc"],
        vec![path(&["Box"], vec![TypeExpr::ident("Self")]), TypeExpr::ident("T")],
    );
    assert_eq!(visitor.fold_type(ty).render(), "Child::Assoc<Box<Child>, T>");
    let call = function(TypeExpr::ident("Self"), TypeExpr::ident("i32"));
    assert_eq!(visitor.fold_type(call).render(), "fn(Child) -> i32");
    let boxed = boxed_function(path(&["Vec"], vec![TypeExpr::ident("Self")]), TypeExpr::ident("Self"));
    let renamed = visitor.fold_type(boxed);
    assert_eq!(renamed.render(), "Box<dyn Fn(Vec<Child>) -> Child + 'a>");
    assert!(!contains_ident(&renamed, &text("Self")));
    let lifetimes = ReplaceIdent::replace_with(text("a"), text("b"));
    assert_eq!(lifetimes.fold_type(reference(TypeExpr::ident("a"))).render(), "&'b mut b");
}

#[test]
fn replacement_in_variants_and_parameters() {
    let visitor = ReplaceIdent::replace_with(text("Child"), text("MapOutput"));
    let variant = Variant {
        ident: text("Child"),
        fields: Fields::Named(vec![
            NamedField { prefix: String::new(), ident: text("Child"), ty: path(&["Vec"], vec![TypeExpr::ident("Child")]) },
            NamedField { prefix: String::new(), ident: text("other"), ty: TypeExpr::ident("u8") },
        ]),
    };
    let renamed = visitor.fold_variant(variant);
    assert_eq!(renamed.ident, "MapOutput");
    match &renamed.fields {
        Fields::Named(named) => {
            assert_eq!(named.len(), 2);
            assert_eq!(named[0].ident, "MapOutput");
            assert_eq!(named[0].ty.render(), "Vec<MapOutput>");
            assert_eq!(named[1].ident, "other");
            assert_eq!(named[1].ty.render(), "u8");
        }
        _ => panic!("the shape is kept"),
    }
    let kept = visitor.fold_fields(Fields::Named(vec![NamedField {
        prefix: text("pub(in Child) "),
        ident: text("x"),
        ty: TypeExpr::ident("Child"),
    }]));
    assert_eq!(kept.prefix(0), "pub(in Child) ");
    assert_eq!(kept.ty(0).render(), "MapOutput");
    let positional = visitor.fold_fields(Fields::positional(vec![TypeExpr::ident("Child")]));
    assert_eq!(positional.prefix(0), "");
    assert_eq!(positional.shape(), Shape::Unnamed);
    assert_eq!(positional.ty(0).render(), "MapOutput");
    assert_eq!(positional.accessor(0), "0");
    assert_eq!(visitor.fold_fields(Fields::Unit).len(), 0);
    let params = visitor.fold_generics(vec![
        GenericParam::Type { ident: text("T"), bounds: vec![path(&["From"], vec![TypeExpr::ident("Child")])] },
        GenericParam::Type { ident: text("Child"), bounds: Vec::new() },
        GenericParam::Lifetime { ident: text("Child") },
        GenericParam::Const { ident: text("N"), ty: TypeExpr::ident("usize") },
    ]);
    let declared: Vec<String> = params.iter().map(|param| param.declare()).collect();
    assert_eq!(declared, vec!["T: From<MapOutput>", "MapOutput", "'MapOutput", "const N: usize"]);
    let narrowed = ReplaceIdent::replace_with(text("usize"), text("u8")).fold_generics(vec![
        GenericParam::Const { ident: text("N"), ty: TypeExpr::ident("usize") },
    ]);
    assert_eq!(narrowed[0].declare(), "const N: u8");
    let used: Vec<String> = params.iter().map(|param| param.name()).collect();
    assert_eq!(used, vec!["T", "MapOutput", "'MapOutput", "N"]);
}

#[test]
fn mentioned_generics_are_the_targets_that_occur() {
    let targets = vec![text("K"), text("V"), text("Child"), text("K")];
    let mut collector = MentionedGenerics::new(&targets);
    let _ = collector.fold_type(nested());
    let mut mentioned = collector.into_mentioned();
    mentioned.sort();
    assert_eq!(mentioned, vec![text("Child"), text("K")]);

    let mut collector = MentionedGenerics::new(&targets);
    assert_eq!(collector.fold_path_segment(text("V")), "V");
    assert_eq!(collector.fold_path_segment(text("V")), "V");
    assert_eq!(collector.fold_path_segment(text("W")), "W");
    assert_eq!(collector.into_mentioned(), vec![text("V")]);

    let collector = MentionedGenerics::new(&targets);
    assert!(collector.into_mentioned().is_empty());
    let mut collector = MentionedGenerics::default();
    let _ = collector.fold_type(nested());
    assert!(collector.into_mentioned().is_empty());
    let mut collector = MentionedGenerics::default();
    collector.extend_targets(&vec![text("u8")]);
    let _ = collector.fold_type(nested());
    assert_eq!(collector.into_mentioned(), vec![text("u8")]);
}

#[test]
fn mentioned_generics_reach_into_function_types_but_not_into_names() {
    let ty = boxed_function(TypeExpr::ident("T"), reference(TypeExpr::ident("U")));
    let mut collector = MentionedGenerics::new(&vec![text("T"), text("U"), text("a"), text("V")]);
    let _ = collector.fold_type(ty);
    let mut mentioned = collector.into_mentioned();
    mentioned.sort();
    assert_eq!(mentioned, vec![text("T"), text("U")]);
}

#[test]
fn mentioned_generics_of_a_variant_look_at_field_types_only() {
    let variant = Variant {
        ident: text("K"),
        fields: Fields::Named(vec![
            NamedField { prefix: String::new(), ident: text("V"), ty: TypeExpr::ident("Child") },
            NamedField { prefix: String::new(), ident: text("rest"), ty: path(&["Vec"], vec![TypeExpr::ident("T")]) },
        ]),
    };
    let mut collector = MentionedGenerics::new(&vec![text("K"), text("V"), text("Child"), text("T")]);
    let back = collector.fold_variant(variant);
    assert_eq!(back.ident, "K");
    let mut mentioned = collector.into_mentioned();
    mentioned.sort();
    assert_eq!(mentioned, vec![text("Child"), text("T")]);
}

#[test]
fn field_mapper_keeps_shape_order_and_names() {
    let named = Fields::Named(vec![
        NamedField { prefix: String::new(), ident: text("left"), ty: TypeExpr::ident("A") },
        NamedField { prefix: String::new(), ident: text("right"), ty: TypeExpr::ident("B") },
    ]);
    let show = |accessor: &String, ty: &TypeExpr| format!("<{}:{}>", accessor, ty.render());
    assert_eq!(map_fields(&named, show), " { left: <left:A>, right: <right:B> }");
    let unnamed = Fields::positional(vec![
        TypeExpr::ident("A"),
        TypeExpr::ident("B"),
        TypeExpr::ident("C"),
    ]);
    assert_eq!(map_fields(&unnamed, show), "(<0:A>, <1:B>, <2:C>)");
    assert_eq!(map_fields(&Fields::Unit, show), "");
    assert_eq!(map_fields(&Fields::Named(Vec::new()), show), " {  }");
    assert_eq!(map_fields(&Fields::Unnamed(Vec::new()), show), "()");
}

#[test]
fn positional_fields_are_reached_by_numerals() {
    let fields = Fields::positional((0..12).map(|_| TypeExpr::ident("T")).collect());
    assert_eq!(fields.len(), 12);
    assert_eq!(fields.accessor(0), "0");
    assert_eq!(fields.accessor(9), "9");
    assert_eq!(fields.accessor(10), "10");
    assert_eq!(fields.accessor(11), "11");
    assert_eq!(decimal_text(0), "0");
    assert_eq!(decimal_text(7), "7");
    assert_eq!(decimal_text(1203), "1203");
    assert_eq!(decimal_text(usize::MAX), usize::MAX.to_string());
}

#[test]
fn field_expressions_follow_the_kind() {
    let expr = |traversal, kind| write_field_expr(traversal, kind, "x", "Vec<Child>");
    assert_eq!(expr(Traversal::ByRef, FieldKind::Child), "f(&self.x)");
    assert_eq!(
        expr(Traversal::ByRef, FieldKind::Container),
        "<Vec<Child> as Map<&'a Child, MapOutput>>::map(&self.x, f)"
    );
    assert_eq!(expr(Traversal::ByRef, FieldKind::Leaf), "self.x.clone()");
    assert_eq!(expr(Traversal::ByValue, FieldKind::Child), "f(self.x)");
    assert_eq!(
        expr(Traversal::ByValue, FieldKind::Container),
        "<Vec<Child> as MapOwned<Child, MapOutput>>::map_owned(self.x, f)"
    );
    assert_eq!(expr(Traversal::ByValue, FieldKind::Leaf), "self.x.clone()");
    assert_eq!(expr(Traversal::Failable, FieldKind::Child), "self.x?");
    assert_eq!(expr(Traversal::Failable, FieldKind::Container), "self.x.into_result()?");
    assert_eq!(expr(Traversal::Failable, FieldKind::Leaf), "self.x");
    assert_eq!(expr(Traversal::Optional, FieldKind::Child), "self.x?");
    assert_eq!(expr(Traversal::Optional, FieldKind::Container), "self.x.into_option()?");
    assert_eq!(expr(Traversal::Optional, FieldKind::Leaf), "self.x");
}

fn params() -> Vec<GenericParam> {
    vec![
        GenericParam::Type { ident: text("T"), bounds: Vec::new() },
        GenericParam::Lifetime { ident: text("b") },
        GenericParam::Type { ident: text("Child"), bounds: Vec::new() },
        GenericParam::Const { ident: text("N"), ty: TypeExpr::ident("usize") },
        GenericParam::Type { ident: text("U"), bounds: vec![TypeExpr::ident("Ord")] },
    ]
}

fn declared(params: &Vec<GenericParam>) -> Vec<String> {
    params.iter().map(|param| param.declare()).collect()
}

#[test]
fn all_but_ident_drops_the_type_parameter_of_that_name() {
    assert_eq!(all_but_ident(&params(), &text("Child")), vec![true, true, false, true, true]);
    assert_eq!(all_but_ident(&params(), &text("b")), vec![true, true, true, true, true]);
    assert_eq!(all_but_ident(&params(), &text("N")), vec![true, true, true, true, true]);
    assert_eq!(all_but_ident(&Vec::new(), &text("T")), Vec::<bool>::new());
}

#[test]
fn bounds_are_added_to_selected_type_parameters() {
    let mut bounded = params();
    let selected = all_but_ident(&bounded, &text("Child"));
    add_bound_to_all(&mut bounded, &selected, &TypeExpr::lifetime("a"));
    assert_eq!(
        declared(&bounded),
        vec!["T: 'a", "'b", "Child", "const N: usize", "U: Ord + 'a"]
    );
    let mut bounded = params();
    add_bound_to_all(&mut bounded, &vec![false, true], &TypeExpr::lifetime("a"));
    assert_eq!(declared(&bounded), declared(&params()));
    let mut bounded = params();
    add_bound_to_all(&mut bounded, &vec![true, true, true, true, true, true, true], &TypeExpr::ident("Send"));
    assert_eq!(
        declared(&bounded),
        vec!["T: Send", "'b", "Child: Send", "const N: usize", "U: Ord + Send"]
    );
}

#[test]
fn where_clause_asks_clone_of_type_parameters_but_the_child() {
    assert_eq!(
        where_clause_for_generics(&params()),
        Some(text("where T: Clone, U: Clone"))
    );
    assert_eq!(
        where_clause_for_generics(&vec![GenericParam::plain(text("Child"))]),
        None
    );
    assert_eq!(
        where_clause_for_generics(&vec![GenericParam::Lifetime { ident: text("a") }]),
        None
    );
    assert_eq!(where_clause_for_generics(&Vec::new()), None);
}

#[test]
fn lists_are_joined_and_bracketed() {
    let items = vec![text("a"), text("b"), text("c")];
    assert_eq!(join(&items, ", "), "a, b, c");
    assert_eq!(join(&vec![text("a")], ", "), "a");
    assert_eq!(join(&Vec::new(), ", "), "");
    assert_eq!(terminate(&items, ";"), "a;b;c;");
    assert_eq!(terminate(&Vec::new(), ";"), "");
    assert_eq!(angle(&items), "<a, b, c>");
    assert_eq!(angle(&Vec::new()), "");
    assert!(contains_name(&items, &text("b")));
    assert!(!contains_name(&items, &text("d")));
}

use entish_derive::entish::Node;
use entish_derive::schema::{Fields, GenericParam, NamedField};
use entish_derive::ty::{TypeExpr, TypeHead};
use entish_derive::value::{NodeValue, Slot, SumValue};

/// `Entry { key: K, rest: Vec<Child>, next: Child }`
fn entry() -> Node {
    Node {
        ident: "Entry".to_string(),
        generics: vec![GenericParam::plain("K".to_string()), GenericParam::plain("Child".to_string())],
        fields: Fields::Named(vec![
            NamedField::plain("key", TypeExpr::ident("K")),
            NamedField::plain(
                "rest",
                TypeExpr {
                    head: TypeHead::Path(vec!["Vec".to_string()]),
                    args: vec![TypeExpr::ident("Child")],
                },
            ),
            NamedField::plain("next", TypeExpr::ident("Child")),
        ]),
    }
}

fn value<C>(key: &str, rest: Vec<C>, next: C) -> NodeValue<C, String> {
    NodeValue { slots: vec![Slot::Leaf(key.to_string()), Slot::Nested(rest), Slot::Child(next)] }
}

#[test]
fn value_fits_the_node_whose_kinds_it_has() {
    assert!(value("k", vec![1, 2], 3).fits(&entry()));
    assert!(value("k", Vec::new(), 3).fits(&entry()));
    let short: NodeValue<i32, String> = NodeValue { slots: vec![Slot::Leaf("k".to_string())] };
    assert!(!short.fits(&entry()));
    let swapped: NodeValue<i32, String> = NodeValue {
        slots: vec![Slot::Leaf("k".to_string()), Slot::Child(1), Slot::Nested(vec![2])],
    };
    assert!(!swapped.fits(&entry()));
}

#[test]
fn value_children_come_in_field_order() {
    let node = value("k", vec![1, 2], 3);
    assert_eq!(node.iter_children(), vec![&1, &2, &3]);
    let leaf: NodeValue<i32, String> = NodeValue { slots: vec![Slot::Leaf("k".to_string())] };
    assert!(leaf.iter_children().is_empty());
    let nested = value("k", vec![vec![1, 2], vec![3]], vec![4]);
    assert_eq!(nested.iter_children(), vec![&vec![1, 2], &vec![3], &vec![4]]);
}

#[test]
fn value_maps_keep_shape_and_leaves() {
    let node = value("k", vec![1, 2], 3);
    assert_eq!(node.clone().map_owned(&|child: i32| child), node);
    assert_eq!(node.clone().map_owned(&|child: i32| child * 10), value("k", vec![10, 20], 30));
    assert!(node.clone().map_owned(&|child: i32| child.to_string()).fits(&entry()));
    let borrowed = node.map(&|child: &i32| child);
    assert_eq!(
        borrowed,
        NodeValue {
            slots: vec![Slot::Leaf(&"k".to_string()), Slot::Nested(vec![&1, &2]), Slot::Child(&3)]
        }
    );
    assert_eq!(node.map(&|child: &i32| child + 1).iter_children(), vec![&2, &3, &4]);
    assert_eq!(node, value("k", vec![1, 2], 3));
}

#[test]
fn value_sequencing_gives_the_first_failure_in_field_order() {
    let node: NodeValue<Result<i32, &str>, String> = value("k", vec![Ok(1), Ok(2)], Ok(3));
    assert_eq!(node.into_result(), Ok(value("k", vec![1, 2], 3)));
    let node: NodeValue<Result<i32, &str>, String> =
        value("k", vec![Ok(1), Err("second"), Err("third")], Err("last"));
    assert_eq!(node.into_result(), Err("second"));
    let node: NodeValue<Result<i32, &str>, String> = value("k", vec![Ok(1)], Err("last"));
    assert_eq!(node.into_result(), Err("last"));
    let node: NodeValue<Result<i32, &str>, String> = NodeValue {
        slots: vec![Slot::Child(Err("first")), Slot::Child(Ok(2))],
    };
    assert_eq!(node.into_result(), Err("first"));
    let node: NodeValue<Result<i32, &str>, String> = NodeValue {
        slots: vec![Slot::Child(Err("first")), Slot::Child(Err("second"))],
    };
    assert_eq!(node.into_result(), Err("first"));
    let empty: NodeValue<Result<i32, &str>, String> = NodeValue { slots: Vec::new() };
    assert_eq!(empty.into_result(), Ok(NodeValue { slots: Vec::new() }));
}

#[test]
fn value_inject_then_project_gives_the_node_back() {
    let node = value("k", vec![1], 2);
    let sum = SumValue::inject(1, node.clone());
    assert_eq!(sum.variant, 1);
    assert_eq!(sum.clone().project(1), Ok(node));
    assert_eq!(sum.clone().project(0), Err(()));
    assert_eq!(sum.project(2), Err(()));
}

use entish_derive::arithmetic::{
    do_arithmetic, Arithmetic, ArithmeticFold, ArithmeticTree, Expr, ExprNode, Just, Plus, Times,
};

fn just(value: i32) -> Expr {
    Expr::new(Arithmetic::Just(Just(value)))
}

fn plus(left: Expr, right: Expr) -> Expr {
    Expr::new(Arithmetic::Plus(Plus { left, right }))
}

fn times(left: Expr, right: Expr) -> Expr {
    Expr::new(Arithmetic::Times(Times { left, right }))
}

/// `1 + (2 * 6)`
fn an_expr() -> Expr {
    plus(just(1), times(just(2), just(6)))
}

#[test]
fn fold_of_the_example_is_thirteen() {
    assert_eq!(13, an_expr().compute_value());
    let folded = an_expr().fold(&|op: Arithmetic<i32>| match op {
        Arithmetic::Plus(Plus { left, right }) => left + right,
        Arithmetic::Times(Times { left, right }) => left * right,
        Arithmetic::Just(Just(v)) => v,
    });
    assert_eq!(folded, 13);
}

#[test]
fn do_arithmetic_computes_one_level() {
    assert_eq!(do_arithmetic(&Arithmetic::Plus(Plus { left: 5, right: -7 })), -2);
    assert_eq!(do_arithmetic(&Arithmetic::Times(Times { left: 5, right: -7 })), -35);
    assert_eq!(do_arithmetic(&Arithmetic::Just(Just(42))), 42);
    assert_eq!(
        do_arithmetic(&Arithmetic::Plus(Plus { left: i32::MAX, right: i32::MIN })),
        -1
    );
}

#[test]
fn compute_value_of_leaf_and_deep_tree() {
    assert_eq!(just(-9).compute_value(), -9);
    let mut tree = just(0);
    for step in 1..=100 {
        tree = plus(tree, just(step));
    }
    assert_eq!(tree.compute_value(), 5050);
    assert_eq!(times(plus(just(2), just(3)), plus(just(4), just(5))).compute_value(), 45);
}

#[test]
fn fold_visits_children_before_parent_left_to_right() {
    let trace = an_expr().fold(&|op: Arithmetic<String>| match op {
        Arithmetic::Plus(Plus { left, right }) => format!("({} + {})", left, right),
        Arithmetic::Times(Times { left, right }) => format!("({} * {})", left, right),
        Arithmetic::Just(Just(v)) => v.to_string(),
    });
    assert_eq!(trace, "(1 + (2 * 6))");
}

#[test]
fn inject_then_project_gives_the_node_back() {
    let node = Plus { left: 1u8, right: 2u8 };
    let sum: Arithmetic<u8> = node.clone().into();
    assert_eq!(sum, Arithmetic::Plus(node.clone()));
    assert_eq!(Plus::try_from(sum.clone()), Ok(node.clone()));
    let back: Result<Plus<u8>, ()> = sum.clone().try_into();
    assert_eq!(back, Ok(node));
    assert_eq!(Times::try_from(sum.clone()), Err(()));
    assert_eq!(Just::try_from(sum), Err(()));

    let node = Times { left: 3u8, right: 4u8 };
    let sum = Arithmetic::from(node.clone());
    assert_eq!(Times::try_from(sum.clone()), Ok(node));
    assert_eq!(Plus::try_from(sum.clone()), Err(()));
    assert_eq!(Just::try_from(sum), Err(()));

    let sum: Arithmetic<u8> = Arithmetic::from(Just(7));
    assert_eq!(Just::try_from(sum.clone()), Ok(Just(7)));
    assert_eq!(Plus::try_from(sum.clone()), Err(()));
    assert_eq!(Times::try_from(sum), Err(()));
}

#[test]
fn map_with_identity_gives_the_same_node() {
    let nodes = vec![
        Arithmetic::Plus(Plus { left: 1, right: 2 }),
        Arithmetic::Times(Times { left: 3, right: 4 }),
        Arithmetic::Just(Just(5)),
    ];
    for node in nodes {
        assert_eq!(node.clone().map_owned(&|child: i32| child), node);
        let borrowed = node.map(&|child: &i32| child);
        assert_eq!(borrowed.map(&|child: &&i32| **child), node);
    }
}

#[test]
fn map_applies_function_to_each_child_and_keeps_leaves() {
    let node = Arithmetic::Plus(Plus { left: 1, right: 2 });
    assert_eq!(node.map(&|child: &i32| child * 10), Arithmetic::Plus(Plus { left: 10, right: 20 }));
    assert_eq!(
        node.map_owned(&|child: i32| child.to_string()),
        Arithmetic::Plus(Plus { left: "1".to_string(), right: "2".to_string() })
    );
    let node: Arithmetic<i32> = Arithmetic::Just(Just(5));
    assert_eq!(node.map(&|child: &i32| child * 10), Arithmetic::Just(Just(5)));
    let node = Times { left: 2, right: 3 };
    assert_eq!(node.map(&|child: &i32| child + 1), Times { left: 3, right: 4 });
    assert_eq!(node.map_owned(&|child: i32| child - 1), Times { left: 1, right: 2 });
    let node = Plus { left: 2, right: 3 };
    assert_eq!(node.map(&|child: &i32| child + 1), Plus { left: 3, right: 4 });
    assert_eq!(node.map_owned(&|child: i32| child - 1), Plus { left: 1, right: 2 });
    assert_eq!(Just(1).map(&|child: &i32| child + 1), Just(1));
    assert_eq!(Just(1).map_owned(&|child: i32| child + 1), Just(1));
}

#[test]
fn first_failure_wins_whatever_follows() {
    let node: Plus<Result<i32, &str>> = Plus { left: Err("first"), right: Ok(2) };
    assert_eq!(node.into_result(), Err("first"));
    let node: Plus<Result<i32, &str>> = Plus { left: Err("first"), right: Err("second") };
    assert_eq!(node.into_result(), Err("first"));
    let node: Times<Result<i32, &str>> = Times { left: Ok(1), right: Err("second") };
    assert_eq!(node.into_result(), Err("second"));
    let node: Times<Result<i32, &str>> = Times { left: Ok(1), right: Ok(2) };
    assert_eq!(node.into_result(), Ok(Times { left: 1, right: 2 }));
    let node: Arithmetic<Result<i32, &str>> =
        Arithmetic::Times(Times { left: Err("first"), right: Ok(2) });
    assert_eq!(node.into_result(), Err("first"));
    let node: Arithmetic<Result<i32, &str>> =
        Arithmetic::Plus(Plus { left: Ok(1), right: Ok(2) });
    assert_eq!(node.into_result(), Ok(Arithmetic::Plus(Plus { left: 1, right: 2 })));
    let node: Arithmetic<Result<i32, &str>> = Arithmetic::Just(Just(3));
    assert_eq!(node.into_result(), Ok(Arithmetic::Just(Just(3))));
    assert_eq!(Just(3).into_result::<&str>(), Ok(Just(3)));
}

#[test]
fn first_absence_wins_whatever_follows() {
    let node: Plus<Option<i32>> = Plus { left: None, right: Some(2) };
    assert_eq!(node.into_option(), None);
    let node: Plus<Option<i32>> = Plus { left: Some(1), right: Some(2) };
    assert_eq!(node.into_option(), Some(Plus { left: 1, right: 2 }));
    let node: Times<Option<i32>> = Times { left: Some(1), right: None };
    assert_eq!(node.into_option(), None);
    let node: Arithmetic<Option<i32>> = Arithmetic::Times(Times { left: Some(1), right: Some(2) });
    assert_eq!(node.into_option(), Some(Arithmetic::Times(Times { left: 1, right: 2 })));
    let node: Arithmetic<Option<i32>> = Arithmetic::Plus(Plus { left: None, right: None });
    assert_eq!(node.into_option(), None);
    let node: Arithmetic<Option<i32>> = Arithmetic::Just(Just(3));
    assert_eq!(node.into_option(), Some(Arithmetic::Just(Just(3))));
    assert_eq!(Just(3).into_option(), Some(Just(3)));
}

#[test]
fn iter_children_yields_immediate_children_in_order() {
    let tree = an_expr();
    let children = tree.iter_children();
    assert_eq!(children.len(), 2);
    assert_eq!(*children[0], just(1));
    assert_eq!(*children[1], times(just(2), just(6)));
    let grandchildren = children[1].iter_children();
    assert_eq!(grandchildren, vec![&just(2), &just(6)]);
    assert!(just(4).iter_children().is_empty());
}

#[test]
fn as_ref_and_into_inner_unfold_one_level() {
    let tree = an_expr();
    match tree.as_ref() {
        Arithmetic::Plus(Plus { left, right }) => {
            assert_eq!(*left, just(1));
            assert_eq!(*right, times(just(2), just(6)));
        }
        _ => panic!("the top level is a sum"),
    }
    assert_eq!(just(3).as_ref(), Arithmetic::Just(Just(3)));
    assert_eq!(
        tree.into_inner(),
        Arithmetic::Plus(Plus { left: just(1), right: times(just(2), just(6)) })
    );
    assert_eq!(
        Expr::new(Arithmetic::Times(Times { left: just(1), right: just(2) })),
        Expr(Box::new(ExprNode::Times(Times { left: just(1), right: just(2) })))
    );
    assert_eq!(
        Arithmetic::Plus(Plus { left: 1, right: 2 }).into_children(),
        vec![1, 2]
    );
    assert_eq!(Arithmetic::<i32>::Just(Just(1)).into_children(), Vec::<i32>::new());
}

fn checked(op: Arithmetic<i32>) -> Result<i32, String> {
    match op {
        Arithmetic::Plus(Plus { left, right }) => {
            left.checked_add(right).ok_or(format!("{} + {}", left, right))
        }
        Arithmetic::Times(Times { left, right }) => {
            left.checked_mul(right).ok_or(format!("{} * {}", left, right))
        }
        Arithmetic::Just(Just(v)) => {
            if v == 0 {
                Err("zero".to_string())
            } else {
                Ok(v)
            }
        }
    }
}

#[test]
fn try_fold_succeeds_as_fold_does() {
    assert_eq!(an_expr().try_fold(&checked), Ok(13));
}

#[test]
fn try_fold_reports_the_first_failure() {
    let tree = plus(times(just(i32::MAX), just(2)), just(0));
    assert_eq!(tree.try_fold(&checked), Err(format!("{} * 2", i32::MAX)));
    let tree = plus(just(0), times(just(i32::MAX), just(2)));
    assert_eq!(tree.try_fold(&checked), Err("zero".to_string()));
    let tree = plus(just(i32::MAX), just(1));
    assert_eq!(tree.try_fold(&checked), Err(format!("{} + 1", i32::MAX)));
}

#[test]
fn try_fold_stops_at_the_first_failure() {
    let seen = std::cell::RefCell::new(Vec::new());
    let tree = plus(plus(just(1), just(0)), times(just(5), just(6)));
    let outcome = tree.try_fold(&|op: Arithmetic<i32>| {
        seen.borrow_mut().push(format!("{:?}", op));
        checked(op)
    });
    assert_eq!(outcome, Err("zero".to_string()));
    assert_eq!(*seen.borrow(), vec!["Just(Just(1))".to_string(), "Just(Just(0))".to_string()]);
}

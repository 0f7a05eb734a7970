use bombadil::tree::{PickError, Tree};

#[test]
fn test_prune_non_empty() {
    let actual = Tree::Branch {
        branches: vec![
            (1, Tree::Leaf { value: 1 }),
            (
                1,
                Tree::Branch {
                    branches: vec![
                        (1, Tree::Leaf { value: 2 }),
                        (1, Tree::Leaf { value: 3 }),
                        (1, Tree::Branch { branches: vec![] }),
                    ],
                },
            ),
            (1, Tree::Branch { branches: vec![] }),
        ],
    }
    .prune()
    .unwrap();
    let expected = Tree::Branch {
        branches: vec![
            (1, Tree::Leaf { value: 1 }),
            (
                1,
                Tree::Branch {
                    branches: vec![(1, Tree::Leaf { value: 2 }), (1, Tree::Leaf { value: 3 })],
                },
            ),
        ],
    };
    assert_eq!(actual, expected);
}

#[test]
fn test_prune_empty() {
    let actual = Tree::<()>::Branch { branches: vec![] }.prune();
    assert_eq!(actual, None);
}

#[test]
fn test_prune_empty_subtrees() {
    let actual = Tree::<()>::Branch {
        branches: vec![
            (1, Tree::Branch { branches: vec![] }),
            (1, Tree::Branch { branches: vec![] }),
        ],
    }
    .prune();
    assert_eq!(actual, None);
}

#[test]
fn test_filter() {
    let tree = Tree::Branch {
        branches: vec![
            (1, Tree::Leaf { value: 1 }),
            (1, Tree::Leaf { value: 2 }),
            (1, Tree::Leaf { value: 3 }),
        ],
    };
    let filtered = tree.filter(&|x: &i32| *x > 1).prune().unwrap();
    let expected = Tree::Branch {
        branches: vec![(1, Tree::Leaf { value: 2 }), (1, Tree::Leaf { value: 3 })],
    };
    assert_eq!(filtered, expected);
}

#[test]
fn test_try_map_ok() {
    let tree = Tree::Branch {
        branches: vec![(1, Tree::Leaf { value: 1 }), (2, Tree::Leaf { value: 2 })],
    };
    let mapped = tree
        .try_map(&|x: i32| -> Result<String, ()> { Ok(x.to_string()) })
        .unwrap();
    let expected = Tree::Branch {
        branches: vec![
            (
                1,
                Tree::Leaf {
                    value: "1".to_string(),
                },
            ),
            (
                2,
                Tree::Leaf {
                    value: "2".to_string(),
                },
            ),
        ],
    };
    assert_eq!(mapped, expected);
}

#[test]
fn test_try_map_err() {
    let tree = Tree::Branch {
        branches: vec![(1, Tree::Leaf { value: 1 }), (2, Tree::Leaf { value: 2 })],
    };
    let result = tree.try_map(&|x: i32| -> Result<String, &str> {
        if x == 2 {
            Err("bad")
        } else {
            Ok(x.to_string())
        }
    });
    assert!(result.is_err());
}

#[test]
fn test_try_map_first_err() {
    // Both leaves would fail; the traversal stops at the first one
    // and returns its error.
    let tree = Tree::Branch {
        branches: vec![(1, Tree::Leaf { value: 1 }), (2, Tree::Leaf { value: 2 })],
    };
    let result = tree.try_map(&|x: i32| -> Result<i32, i32> { Err(x) });
    assert_eq!(result, Err(1));
}

#[test]
fn test_pick_single_leaf() {
    let tree = Tree::Leaf { value: 42 };
    assert_eq!(*tree.pick().unwrap(), 42);
}

#[test]
fn test_pick_weighted() {
    // With a 1000:1 weight ratio, the heavy leaf should dominate.
    let tree = Tree::Branch {
        branches: vec![
            (1000, Tree::Leaf { value: "heavy" }),
            (1, Tree::Leaf { value: "light" }),
        ],
    };
    let mut heavy_count = 0;
    for _ in 0..100 {
        if *tree.pick().unwrap() == "heavy" {
            heavy_count += 1;
        }
    }
    assert!(heavy_count > 80);
}

#[test]
fn test_pick_zero_weights() {
    let tree = Tree::Branch {
        branches: vec![(0, Tree::Leaf { value: 1 }), (0, Tree::Leaf { value: 2 })],
    };
    assert_eq!(tree.pick(), Err(PickError::ZeroTotalWeight));
}

#[test]
fn test_pick_skips_zero_weight_branch() {
    // A zero-weight branch is never taken, even if it is first.
    let tree = Tree::Branch {
        branches: vec![(0, Tree::Leaf { value: "never" }), (3, Tree::Leaf { value: "only" })],
    };
    for _ in 0..20 {
        assert_eq!(*tree.pick().unwrap(), "only");
    }
}

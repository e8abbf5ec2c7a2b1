use glasgae::base::data::tree::rose_tree::{rose_tree_traverse, RoseTree};
use glasgae::base::grl::show::Show;

fn tree() -> RoseTree<i32> {
    RoseTree(
        0,
        vec![
            RoseTree(
                1,
                vec![
                    RoseTree(4, vec![RoseTree(10, vec![])]),
                    RoseTree(5, vec![RoseTree(11, vec![])]),
                ],
            ),
            RoseTree(
                2,
                vec![
                    RoseTree(6, vec![RoseTree(12, vec![])]),
                    RoseTree(7, vec![RoseTree(13, vec![])]),
                ],
            ),
            RoseTree(
                3,
                vec![
                    RoseTree(8, vec![RoseTree(14, vec![])]),
                    RoseTree(9, vec![RoseTree(15, vec![])]),
                ],
            ),
        ],
    )
}

fn shown(t: &RoseTree<i32>) -> RoseTree<String> {
    RoseTree((t.0 + 1).to_string(), t.1.iter().map(shown).collect())
}

#[test]
fn test_rose_tree_sequence() {
    let tree = tree();
    println!("Tree:\n{tree:#?}");

    let expected = shown(&tree);
    let traversed: Vec<RoseTree<_>> = rose_tree_traverse(tree, &|t: i32| vec![(t + 1).show()]);
    println!("Traversed:\n{traversed:#?}");
    assert_eq!(traversed, vec![expected]);
}

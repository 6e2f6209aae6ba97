use tang::typetab::{TableError, TypeTab};
use tang::types::{Type, TypeMode, TypeNode};

#[test]
fn grow_then_get_yields_nil_default() {
    let mut tab = TypeTab::global();
    assert_eq!(tab.size(0), 0);
    tab.grow(0);
    assert_eq!(tab.size(0), 1);
    let t = tab.get_type(0, 0, 0).unwrap();
    assert!(matches!(t.node, TypeNode::Nil));
    assert!(matches!(t.mode, TypeMode::Regular));
}

#[test]
fn set_then_get_returns_the_set_value() {
    let mut tab = TypeTab::global();
    tab.grow(0);
    tab.grow(0);
    tab.set_type(0, 1, 0, Type::from(TypeNode::Str)).unwrap();
    assert!(matches!(tab.get_type(0, 1, 0).unwrap().node, TypeNode::Str));
    assert!(matches!(tab.get_type(0, 0, 0).unwrap().node, TypeNode::Nil));
}

#[test]
fn depth_past_the_root_is_an_environment_error() {
    let mut tab = TypeTab::global();
    tab.grow(0);
    assert!(matches!(tab.get_type(0, 0, 3), Err(TableError::InvalidEnvironmentIndex)));
    assert!(matches!(
        tab.set_type(0, 0, 3, Type::from(TypeNode::Int)),
        Err(TableError::InvalidEnvironmentIndex)
    ));
    assert!(matches!(tab.get_cover(0, "T", 1), Err(TableError::InvalidEnvironmentIndex)));
}

#[test]
fn missing_slot_falls_through_to_the_parent() {
    let mut tab = TypeTab::global();
    tab.grow(0);
    tab.set_type(0, 0, 0, Type::from(TypeNode::Int)).unwrap();
    let child = tab.new(0, Vec::new(), Vec::new());
    // The child has no slot 0 of its own, so depth 0 falls through to the
    // parent's slot 0.
    assert!(matches!(tab.get_type(child, 0, 0).unwrap().node, TypeNode::Int));
    // Setting through the fallthrough writes the parent's slot.
    tab.set_type(child, 0, 0, Type::from(TypeNode::Bool)).unwrap();
    assert!(matches!(tab.get_type(0, 0, 0).unwrap().node, TypeNode::Bool));
}

#[test]
fn explicit_depth_reads_the_ancestor() {
    let mut tab = TypeTab::global();
    tab.grow(0);
    tab.set_type(0, 0, 0, Type::from(TypeNode::Char)).unwrap();
    let child = tab.new(0, vec![Type::from(TypeNode::Int)], Vec::new());
    let grandchild = tab.new(child, Vec::new(), Vec::new());
    assert!(matches!(tab.get_type(child, 0, 0).unwrap().node, TypeNode::Int));
    assert!(matches!(tab.get_type(child, 0, 1).unwrap().node, TypeNode::Char));
    assert!(matches!(tab.get_type(grandchild, 0, 2).unwrap().node, TypeNode::Char));
}

#[test]
fn covers_are_looked_up_at_one_exact_scope() {
    let mut tab = TypeTab::global();
    let covers = vec![("T".to_string(), Type::from(TypeNode::Int))];
    let child = tab.new(0, Vec::new(), covers);
    assert!(matches!(tab.get_cover(child, "T", 0).unwrap().node, TypeNode::Int));
    // Missing name at the terminal scope: a type-index error, no fallthrough.
    assert!(matches!(tab.get_cover(child, "U", 0), Err(TableError::InvalidTypeIndex)));
    // The parent does not see the child's cover.
    assert!(matches!(tab.get_cover(child, "T", 1), Err(TableError::InvalidTypeIndex)));
    // Walking past the root is the environment error.
    assert!(matches!(tab.get_cover(child, "T", 2), Err(TableError::InvalidEnvironmentIndex)));
}

#[test]
fn first_cover_entry_wins() {
    let mut tab = TypeTab::global();
    let covers = vec![
        ("T".to_string(), Type::from(TypeNode::Int)),
        ("T".to_string(), Type::from(TypeNode::Bool)),
    ];
    let child = tab.new(0, Vec::new(), covers);
    assert!(matches!(tab.get_cover(child, "T", 0).unwrap().node, TypeNode::Int));
}

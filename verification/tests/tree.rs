use stain::surface::Surface;

fn ids(surface: &Surface) -> Vec<u16> {
    surface.children.iter().map(|child| child.id).collect()
}

#[test]
fn appending_a_child_twice_moves_it_to_the_end() {
    let mut parent = Surface::new(0);
    parent.append_child(Surface::new(1));
    parent.append_child(Surface::new(2));
    assert_eq!(ids(&parent), vec![1, 2]);
    parent.append_child(Surface::new(1));
    assert_eq!(ids(&parent), vec![2, 1]);
    parent.append_child(Surface::new(1));
    assert_eq!(ids(&parent), vec![2, 1]);
}

#[test]
fn an_appended_child_replaces_the_one_with_its_id() {
    let mut parent = Surface::new(0);
    parent.append_child(Surface::new(1));
    let mut again = Surface::new(1);
    again.append_child(Surface::new(9));
    parent.append_child(again);
    assert_eq!(ids(&parent), vec![1]);
    assert_eq!(ids(&parent.children[0]), vec![9]);
}

#[test]
fn a_new_surface_has_nothing() {
    let surface = Surface::new(77);
    assert_eq!(surface.id, 77);
    assert!(surface.background_color.is_none());
    assert!(surface.border.is_none());
    assert!(surface.border_radius.is_none());
    assert!(surface.box_shadow.is_none());
    assert!(surface.image.is_none());
    assert!(surface.text.is_none());
    assert!(surface.children.is_empty());
}

#[test]
fn insert_before_puts_the_child_in_front_of_the_named_one() {
    let mut parent = Surface::new(0);
    parent.append_child(Surface::new(1));
    parent.append_child(Surface::new(2));
    parent.append_child(Surface::new(3));
    parent.insert_before(Surface::new(4), 2);
    assert_eq!(ids(&parent), vec![1, 4, 2, 3]);
    parent.insert_before(Surface::new(5), 1);
    assert_eq!(ids(&parent), vec![5, 1, 4, 2, 3]);
}

#[test]
fn insert_before_moves_a_child_that_is_already_there() {
    let mut parent = Surface::new(0);
    for id in [1, 2, 3] {
        parent.append_child(Surface::new(id));
    }
    parent.insert_before(Surface::new(3), 1);
    assert_eq!(ids(&parent), vec![3, 1, 2]);
    parent.insert_before(Surface::new(3), 2);
    assert_eq!(ids(&parent), vec![1, 3, 2]);
}

#[test]
fn insert_before_a_missing_child_appends() {
    let mut parent = Surface::new(0);
    parent.append_child(Surface::new(1));
    parent.insert_before(Surface::new(2), 9);
    assert_eq!(ids(&parent), vec![1, 2]);
    // a child cannot stand in front of itself: it goes to the end
    parent.insert_before(Surface::new(1), 1);
    assert_eq!(ids(&parent), vec![2, 1]);
}

#[test]
fn remove_child_hands_the_subtree_over() {
    let mut parent = Surface::new(0);
    let mut child = Surface::new(1);
    child.append_child(Surface::new(7));
    parent.append_child(child);
    parent.append_child(Surface::new(2));
    let removed = parent.remove_child(1).expect("the child was there");
    assert_eq!(removed.id, 1);
    assert_eq!(ids(&removed), vec![7]);
    assert_eq!(ids(&parent), vec![2]);
    assert!(parent.remove_child(1).is_none());
    assert_eq!(ids(&parent), vec![2]);
    // only direct children are removed
    assert!(parent.remove_child(7).is_none());
}

#[test]
fn find_child_gives_the_first_place_with_the_id() {
    let mut parent = Surface::new(0);
    assert_eq!(parent.find_child(1), None);
    parent.children.push(Surface::new(4));
    parent.children.push(Surface::new(5));
    parent.children.push(Surface::new(4));
    assert_eq!(parent.find_child(4), Some(0));
    assert_eq!(parent.find_child(5), Some(1));
    assert_eq!(parent.find_child(6), None);
    // of two with one id, the first is taken out
    parent.remove_child(4);
    assert_eq!(ids(&parent), vec![5, 4]);
}

#[test]
fn tree_operations_leave_the_paint_attributes() {
    let mut parent = Surface::new(3);
    parent.background_color = Some(stain::style::Color(1, 2, 3, 4));
    parent.append_child(Surface::new(1));
    parent.insert_before(Surface::new(2), 1);
    parent.remove_child(1);
    assert_eq!(parent.id, 3);
    assert_eq!(parent.background_color, Some(stain::style::Color(1, 2, 3, 4)));
    assert!(parent.border.is_none());
}

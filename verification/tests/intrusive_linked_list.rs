use hikari::intrusive_linked_list::{IntrusiveLinkedList, Node};

#[test]
fn append() {
    let mut list = IntrusiveLinkedList::new();
    list.append_node(Node::new_boxed(0));
    assert!(list.len() == 1);
    list.append_node(Node::new_boxed(1));
    assert!(list.len() == 2);
}

#[test]
fn prepend() {
    let mut list = IntrusiveLinkedList::new();
    list.prepend_node(Node::new_boxed(0));
    assert!(list.len() == 1);
    list.prepend_node(Node::new_boxed(1));
    assert!(list.len() == 2);
}

#[test]
fn remove() {
    let mut list = IntrusiveLinkedList::new();
    let zero = list.prepend_node(Node::new_boxed(0));
    let one = list.prepend_node(Node::new_boxed(1));
    let two = list.prepend_node(Node::new_boxed(2));
    assert!(list.len() == 3);
    list.remove_node(zero);
    list.remove_node(one);
    assert!(list.len() == 1);
    list.remove_node(two);
    assert!(list.len() == 0);

    let zero = list.prepend_node(Node::new_boxed(0));
    let one = list.prepend_node(Node::new_boxed(1));
    let two = list.prepend_node(Node::new_boxed(2));

    assert!(list.len() == 3);
    list.remove_node(two);
    list.remove_node(zero);
    assert!(list.len() == 1);
    list.remove_node(one);
    assert!(list.len() == 0);

    let zero = list.prepend_node(Node::new_boxed(0));
    let one = list.prepend_node(Node::new_boxed(1));
    let two = list.prepend_node(Node::new_boxed(2));

    assert!(list.len() == 3);
    list.remove_node(one);
    list.remove_node(two);
    assert!(list.len() == 1);
    list.remove_node(zero);
    assert!(list.len() == 0);
}

#[test]
fn drain() {
    let mut list = IntrusiveLinkedList::new();
    list.append_node(Node::new_boxed(0));
    list.append_node(Node::new_boxed(1));
    list.append_node(Node::new_boxed(2));
    list.append_node(Node::new_boxed(3));

    assert!(list.len() == 4);

    for _ in list.drain() {}
    assert!(list.len() == 0);
}

#[test]
fn iteration_follows_list_order() {
    let mut list = IntrusiveLinkedList::new();
    list.append_node(Node::new_boxed(1));
    list.append_node(Node::new_boxed(2));
    list.prepend_node(Node::new_boxed(0));
    let mut it = list.iter();
    let mut seen = Vec::new();
    while let Some(x) = it.next() {
        seen.push(*x);
    }
    assert_eq!(seen, vec![0, 1, 2]);
    assert_eq!(list.drain(), vec![0, 1, 2]);
    assert!(list.is_empty());
}

#[test]
fn removing_the_appended_node_restores_the_list() {
    let mut list = IntrusiveLinkedList::new();
    list.append_node(Node::new_boxed("a"));
    list.append_node(Node::new_boxed("b"));
    let h = list.append_node(Node::new_boxed("c"));
    let node = list.remove_node(h);
    assert_eq!(*node.data(), "c");
    assert_eq!(list.drain(), vec!["a", "b"]);
}

#[test]
fn removing_a_middle_node_keeps_the_others_in_order() {
    let mut list = IntrusiveLinkedList::new();
    list.append_node(Node::new_boxed(10));
    let mid = list.append_node(Node::new_boxed(20));
    list.append_node(Node::new_boxed(30));
    assert_eq!(*list.get(mid), 20);
    let old = list.replace(mid, 25);
    assert_eq!(old, 20);
    let node = list.remove_node(mid);
    assert_eq!(*node.data(), 25);
    list.append_node(Node::new_boxed(40));
    assert_eq!(list.drain(), vec![10, 30, 40]);
}

#[test]
fn get_mut_changes_one_payload_in_place() {
    let mut list = IntrusiveLinkedList::new();
    let a = list.append_node(Node::new_boxed(1));
    let b = list.append_node(Node::new_boxed(2));
    *list.get_mut(b) = 7;
    assert_eq!(*list.get(a), 1);
    assert_eq!(*list.get(b), 7);
    assert_eq!(list.len(), 2);
}

use lists::node_iter::NodeIterator;
use lists::List;

#[test]
fn node_iter_iter_new() {
    let mut list = List::new();
    list.push_back(1);
    list.push_back(2);
    list.push_back(3);

    let mut iter = NodeIterator::new(&list);
    let mut count = 0;
    while let Some(_node) = iter.next() {
        count += 1;
    }
    assert_eq!(count, 3);
}

#[test]
fn node_iter_iter_next() {
    let mut list = List::new();
    list.push_back(1);
    list.push_back(2);
    list.push_back(3);

    let mut iter = NodeIterator::new(&list);
    assert_eq!(list.node(iter.next().unwrap()).unwrap().value, 1);
    assert_eq!(list.node(iter.next().unwrap()).unwrap().value, 2);
    assert_eq!(list.node(iter.next().unwrap()).unwrap().value, 3);
}

#[test]
fn node_iter_stays_exhausted() {
    let mut list = List::new();
    list.push_back(1);
    let mut iter = NodeIterator::new(&list);
    assert_eq!(iter.next(), list.first_node());
    assert_eq!(iter.next(), None);
    assert_eq!(iter.next(), None);
    assert_eq!(iter.next(), None);
}

#[test]
fn node_iter_on_empty_list_gives_nothing() {
    let list = List::<String>::new();
    let mut iter = NodeIterator::new(&list);
    assert_eq!(iter.next(), None);
    assert_eq!(iter.next(), None);
}

#[test]
fn node_iter_gives_each_handle_once_from_first_to_last() {
    let mut list = List::new();
    list.append(vec![5, 6, 7, 8]);
    list.pop_front();
    list.push_front(4);
    let mut handles = Vec::new();
    let mut iter = NodeIterator::new(&list);
    while let Some(handle) = iter.next() {
        assert!(!handles.contains(&handle));
        handles.push(handle);
    }
    assert_eq!(handles.len(), 4);
    assert_eq!(Some(handles[0]), list.first_node());
    assert_eq!(Some(handles[3]), list.last_node());
    for i in 0..3 {
        assert_eq!(list.node(handles[i]).unwrap().next, Some(handles[i + 1]));
    }
    assert_eq!(list.node(handles[3]).unwrap().next, None);
    let values: Vec<i32> = handles.iter().map(|h| list.node(*h).unwrap().value).collect();
    assert_eq!(values, vec![4, 6, 7, 8]);
}

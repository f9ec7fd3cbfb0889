use lists::List;
use std::rc::Rc;

#[test]
fn leaks_check() {
    let mut list = List::new();
    list.push_back(vec![1u8, 2, 3]);
    list.push_back(vec![1, 4, 3]);
    list.push_back(vec![1, 5, 3]);

    let _item_0 = list.pop_front();
    let _item_2 = list.pop_back();

    assert_eq!(list.len(), 1);
}

#[test]
fn drop_releases_every_value_once() {
    let witness = Rc::new(());
    {
        let mut list = List::new();
        for _ in 0..50 {
            list.push_back(Rc::clone(&witness));
            list.push_front(Rc::clone(&witness));
        }
        assert_eq!(Rc::strong_count(&witness), 101);
        let front = list.pop_front();
        let back = list.pop_back();
        assert_eq!(Rc::strong_count(&witness), 101);
        drop(front);
        drop(back);
        assert_eq!(Rc::strong_count(&witness), 99);
        assert_eq!(list.len(), 98);
    }
    assert_eq!(Rc::strong_count(&witness), 1);
}

#[test]
fn clear_releases_every_value_once() {
    let witness = Rc::new(());
    let mut list = List::new();
    for _ in 0..10 {
        list.push_back(Rc::clone(&witness));
    }
    assert_eq!(Rc::strong_count(&witness), 11);
    list.clear();
    assert_eq!(Rc::strong_count(&witness), 1);
    list.push_back(Rc::clone(&witness));
    assert_eq!(Rc::strong_count(&witness), 2);
    drop(list);
    assert_eq!(Rc::strong_count(&witness), 1);
}

#[test]
fn drop_of_a_long_list_needs_no_deep_stack() {
    let mut list = List::new();
    for i in 0..300_000u32 {
        list.push_back(vec![i]);
    }
    assert_eq!(list.len(), 300_000);
    assert_eq!(list.back(), Some(&vec![299_999]));
    drop(list);
}

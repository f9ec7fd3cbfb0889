use lists::List;
use std::collections::VecDeque;

fn values(list: &List<i32>) -> Vec<i32> {
    let mut out = Vec::new();
    let mut it = list.iter();
    while let Some(v) = it.next() {
        out.push(*v);
    }
    out
}

#[test]
fn len_is_pushes_minus_successful_pops() {
    let mut list = List::new();
    let mut model = VecDeque::new();
    let mut pushes = 0usize;
    let mut pops = 0usize;
    for step in 0..200i32 {
        match step % 7 {
            0 | 1 => {
                list.push_back(step);
                model.push_back(step);
                pushes += 1;
            }
            2 => {
                list.push_front(step);
                model.push_front(step);
                pushes += 1;
            }
            3 | 4 => {
                let popped = list.pop_front();
                assert_eq!(popped, model.pop_front());
                if popped.is_some() {
                    pops += 1;
                }
            }
            _ => {
                let popped = list.pop_back();
                assert_eq!(popped, model.pop_back());
                if popped.is_some() {
                    pops += 1;
                }
            }
        }
        assert!(pops <= pushes);
        assert_eq!(list.len(), pushes - pops);
        assert_eq!(list.len(), model.len());
        assert_eq!(list.front(), model.front());
        assert_eq!(list.back(), model.back());
    }
    assert_eq!(pushes, 87);
    assert_eq!(pops, 85);
    assert_eq!(list.len(), 2);
    assert_eq!(values(&list), vec![196, 197]);
}

#[test]
fn pops_on_an_empty_list_do_not_count() {
    let mut list = List::<i32>::new();
    assert_eq!(list.pop_back(), None);
    assert_eq!(list.pop_front(), None);
    assert_eq!(list.len(), 0);
    list.push_back(1);
    assert_eq!(list.len(), 1);
    assert_eq!(list.pop_front(), Some(1));
    assert_eq!(list.pop_front(), None);
    assert_eq!(list.len(), 0);
}

#[test]
fn empty_means_len_zero_and_no_ends() {
    let mut list = List::new();
    for step in 0..40i32 {
        if step % 3 == 2 {
            list.pop_back();
        } else if step % 5 == 4 {
            list.pop_front();
            list.pop_front();
        } else {
            list.push_front(step);
        }
        assert_eq!(list.is_empty(), list.len() == 0);
        assert_eq!(list.front().is_none(), list.is_empty());
        assert_eq!(list.back().is_none(), list.is_empty());
        assert_eq!(list.first_node().is_none(), list.is_empty());
        assert_eq!(list.last_node().is_none(), list.is_empty());
    }
}

#[test]
fn fifo_three_values() {
    let mut list = List::new();
    list.push_back("v1");
    list.push_back("v2");
    list.push_back("v3");
    assert_eq!(list.pop_front(), Some("v1"));
    assert_eq!(list.pop_front(), Some("v2"));
    assert_eq!(list.pop_front(), Some("v3"));
    assert_eq!(list.pop_front(), None);
    assert!(list.is_empty());
}

#[test]
fn fifo_many_values() {
    let mut list = List::new();
    for i in 0..1000 {
        list.push_back(i);
    }
    for i in 0..1000 {
        assert_eq!(list.pop_front(), Some(i));
    }
    assert_eq!(list.pop_front(), None);
}

#[test]
fn push_front_reads_back_in_reverse() {
    let mut list = List::new();
    list.push_front(1);
    list.push_front(2);
    list.push_front(3);
    assert_eq!(values(&list), vec![3, 2, 1]);
    assert_eq!(list.front(), Some(&3));
    assert_eq!(list.back(), Some(&1));
}

#[test]
fn push_back_then_pop_back_restores_the_list() {
    let mut list = List::new();
    list.push_back(42);
    assert_eq!(list.pop_back(), Some(42));
    assert_eq!(list.len(), 0);
    assert_eq!(list.back(), None);

    list.append(vec![1, 2, 3]);
    let len = list.len();
    let back = list.back().copied();
    list.push_back(4);
    assert_eq!(list.pop_back(), Some(4));
    assert_eq!(list.len(), len);
    assert_eq!(list.back().copied(), back);
    assert_eq!(list.back(), Some(&3));
    assert_eq!(values(&list), vec![1, 2, 3]);
}

#[test]
fn iteration_gives_each_value_once_then_nothing() {
    for n in 0..20usize {
        let mut list = List::new();
        for i in 0..n {
            list.push_back(i);
        }
        let mut it = list.iter();
        for i in 0..n {
            assert_eq!(it.next(), Some(&i));
        }
        assert_eq!(it.next(), None);
        assert_eq!(it.next(), None);
        assert_eq!(it.next(), None);
    }
}

#[test]
fn get_matches_iteration() {
    let mut list = List::new();
    list.append(vec![10, 20, 30, 40, 50]);
    list.push_front(5);
    list.pop_back();
    let seen = values(&list);
    assert_eq!(seen, vec![5, 10, 20, 30, 40]);
    for (i, v) in seen.iter().enumerate() {
        assert_eq!(list.get(i), Some(v));
    }
    assert_eq!(list.get(list.len()), None);
    assert_eq!(list.get(list.len() + 1), None);
}

#[test]
fn scenario_push_three_pop_both_ends() {
    let mut list = List::new();
    list.push_back(1);
    list.push_back(2);
    list.push_back(3);
    assert_eq!(list.len(), 3);
    assert_eq!(list.front(), Some(&1));
    assert_eq!(list.back(), Some(&3));

    assert_eq!(list.pop_front(), Some(1));
    assert_eq!(list.len(), 2);
    assert_eq!(list.front(), Some(&2));

    assert_eq!(list.pop_back(), Some(3));
    assert_eq!(list.len(), 1);
    assert_eq!(list.front(), Some(&2));
    assert_eq!(list.back(), Some(&2));
}

#[test]
fn append_is_three_push_backs() {
    let mut appended = List::new();
    appended.append(vec![1, 2, 3]);

    let mut pushed = List::new();
    pushed.push_back(1);
    pushed.push_back(2);
    pushed.push_back(3);

    assert_eq!(appended.len(), pushed.len());
    assert_eq!(appended.is_empty(), pushed.is_empty());
    assert_eq!(appended.front(), pushed.front());
    assert_eq!(appended.back(), pushed.back());
    for i in 0..4 {
        assert_eq!(appended.get(i), pushed.get(i));
    }
    assert_eq!(values(&appended), vec![1, 2, 3]);
    assert_eq!(values(&pushed), vec![1, 2, 3]);
    assert_eq!(appended.first_node(), pushed.first_node());
    assert_eq!(appended.last_node(), pushed.last_node());
}

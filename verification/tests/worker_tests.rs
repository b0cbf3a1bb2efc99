use dojo::worker::{
    channel_map_square, concurrent_increment, multi_producer_single_consumer, parallel_sum,
    sum_range, thread_greeting, Cache, Counter, List, SharedList,
};
use std::rc::Rc;

#[test]
fn test_list_basic() {
    let list = List::new().prepend(3).prepend(2).prepend(1);
    assert_eq!(list.len(), 3);
    assert_eq!(list.sum(), 6);
}

#[test]
fn mission_1_list_prepend() {
    let list = List::new().prepend(1);
    assert_eq!(list, List::Cons(1, Box::new(List::Nil)));
}

#[test]
fn mission_1_list_len() {
    let list = List::new().prepend(3).prepend(2).prepend(1);
    assert_eq!(list.len(), 3);
}

#[test]
fn mission_1_list_is_empty() {
    assert!(List::new().is_empty());
    assert!(!List::new().prepend(1).is_empty());
}

#[test]
fn mission_1_list_sum() {
    let list = List::new().prepend(3).prepend(2).prepend(1);
    assert_eq!(list.sum(), 6);

    let empty = List::new();
    assert_eq!(empty.sum(), 0);
}

#[test]
fn mission_2_shared_list_prepend() {
    let list = SharedList::new();
    let list = SharedList::prepend(list, 1);
    let list = SharedList::prepend(list, 2);

    match list.as_ref() {
        SharedList::Cons(val, _) => assert_eq!(*val, 2),
        SharedList::Nil => panic!("Expected Cons"),
    }
}

#[test]
fn mission_2_ref_count() {
    let a = SharedList::new();
    let a = SharedList::prepend(a, 1);
    assert_eq!(SharedList::ref_count(&a), 1);

    let b = SharedList::prepend(Rc::clone(&a), 2);
    assert_eq!(SharedList::ref_count(&a), 2);

    let c = SharedList::prepend(Rc::clone(&a), 3);
    assert_eq!(SharedList::ref_count(&a), 3);

    drop(b);
    assert_eq!(SharedList::ref_count(&a), 2);
    drop(c);
}

#[test]
fn mission_3_cache_basic() {
    let mut cache = Cache::new(|x| x * 2);

    assert_eq!(cache.get(5), 10);
    assert_eq!(cache.get(5), 10);
    assert_eq!(cache.cached_count(), 1);
}

#[test]
fn mission_3_cache_multiple_values() {
    let mut cache = Cache::new(|x| x * x);

    assert_eq!(cache.get(2), 4);
    assert_eq!(cache.get(3), 9);
    assert_eq!(cache.get(2), 4);
    assert_eq!(cache.cached_count(), 2);
}

#[test]
fn mission_4_parallel_sum() {
    let results = parallel_sum(vec![(0, 3), (10, 3)]);

    assert_eq!(results.len(), 2);
    assert!(results.contains(&3));
    assert!(results.contains(&33));
}

#[test]
fn mission_4_thread_greeting() {
    let greeting = thread_greeting("Rust".to_string());
    assert!(greeting.contains("Rust"));
}

#[test]
fn mission_5_multi_producer() {
    let messages = multi_producer_single_consumer(3, "hello");

    assert_eq!(messages.len(), 3);
    for msg in messages {
        assert_eq!(msg, "hello");
    }
}

#[test]
fn mission_5_channel_map() {
    let numbers = vec![1, 2, 3, 4, 5];
    let squared = channel_map_square(numbers);

    assert_eq!(squared, vec![1, 4, 9, 16, 25]);
}

#[test]
fn mission_6_counter_basic() {
    let mut counter = Counter::new();
    assert_eq!(counter.get(), 0);

    counter.increment();
    counter.increment();
    assert_eq!(counter.get(), 2);
}

#[test]
fn mission_6_concurrent_increment() {
    let result = concurrent_increment(10, 100);
    assert_eq!(result, 1000);
}

#[test]
fn list_sum_adds_negative_numbers() {
    let list = List::new().prepend(-5).prepend(i32::MAX).prepend(-7);
    assert_eq!(list.sum(), i32::MAX - 12);
    assert_eq!(list.len(), 3);
    assert_eq!(List::default(), List::Nil);
}

#[test]
fn cache_runs_the_calculation_once_for_each_argument() {
    let calls = std::cell::Cell::new(0);
    let mut cache = Cache::new(|x| {
        calls.set(calls.get() + 1);
        x + 1
    });
    assert_eq!(cache.cached_count(), 0);
    assert_eq!(cache.get(1), 2);
    assert_eq!(cache.get(1), 2);
    assert_eq!(cache.get(7), 8);
    assert_eq!(cache.get(1), 2);
    assert_eq!(calls.get(), 2);
    assert_eq!(cache.cached_count(), 2);
}

#[test]
fn sum_range_adds_numbers_in_a_row() {
    assert_eq!(sum_range(0, 3), 3);
    assert_eq!(sum_range(10, 3), 33);
    assert_eq!(sum_range(-2, 5), 0);
    assert_eq!(sum_range(5, 0), 0);
    assert_eq!(sum_range(5, -3), 0);
    assert_eq!(sum_range(i32::MAX, 1), i32::MAX);
    assert_eq!(sum_range(1, 65535), 2147450880);
    assert_eq!(parallel_sum(vec![(1, 4), (7, 0), (-3, 2)]), vec![10, 0, -5]);
    assert_eq!(parallel_sum(Vec::new()), Vec::<i32>::new());
}

#[test]
fn greeting_exact_text() {
    assert_eq!(thread_greeting("Rust".to_string()), "Hello, Rust!");
    assert_eq!(thread_greeting(String::new()), "Hello, !");
}

#[test]
fn no_producer_sends_nothing() {
    assert!(multi_producer_single_consumer(0, "hello").is_empty());
    assert_eq!(multi_producer_single_consumer(2, ""), vec![String::new(), String::new()]);
}

#[test]
fn squares_come_out_in_ascending_order() {
    assert_eq!(channel_map_square(vec![5, -1, 3, -4, 0, 3]), vec![0, 1, 9, 9, 16, 25]);
    assert_eq!(channel_map_square(Vec::new()), Vec::<i32>::new());
    assert_eq!(channel_map_square(vec![-46340]), vec![2147395600]);
}

#[test]
fn increments_of_all_workers_add_up() {
    assert_eq!(concurrent_increment(4, 100), 400);
    assert_eq!(concurrent_increment(0, 100), 0);
    assert_eq!(concurrent_increment(3, 0), 0);
    assert_eq!(concurrent_increment(3, -5), 0);
    assert_eq!(Counter::default().get(), 0);
}

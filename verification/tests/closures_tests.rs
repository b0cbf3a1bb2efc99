use dojo::closures::{
    call_and_accumulate, call_many_times, consume_and_return, demo_fn, demo_fn_once,
    execute_with_result, get_static_str, require_send, require_sync, run_once,
    share_counter_between_threads, Animal, AnimalShelter, Cat, Dog, Repeater,
};
use std::sync::{Arc, Mutex};

#[test]
fn test_closure_traits_compile() {
    let x = 5;
    let fn_closure = || x;
    assert_eq!(fn_closure(), 5);
    assert_eq!(fn_closure(), 5);

    let mut count = 0;
    let mut fn_mut_closure = || {
        count += 1;
        count
    };
    assert_eq!(fn_mut_closure(), 1);
    assert_eq!(fn_mut_closure(), 2);
}

#[test]
fn mission_1_1_fn_once_consume() {
    let data = String::from("consumed");
    let consume = || data;

    let result = consume_and_return(consume);
    assert_eq!(result, "consumed");
}

#[test]
fn mission_1_1_demo_fn_once() {
    let result = demo_fn_once();
    assert_eq!(result, "I will be consumed");
}

#[test]
fn mission_1_2_fn_mut_accumulate() {
    let mut count = 0;
    let increment = || {
        count += 1;
        count
    };

    let result = call_and_accumulate(increment);
    assert_eq!(result, 6);
}

#[test]
fn mission_1_3_fn_many_times() {
    let value = 42;
    let get_value = || value;

    let results = call_many_times(get_value, 4);
    assert_eq!(results, vec![42, 42, 42, 42]);
}

#[test]
fn mission_1_3_demo_fn() {
    let result = demo_fn();
    assert_eq!(result, vec![20, 20, 20]);
}

#[test]
fn mission_1_4_repeater() {
    let counter = std::sync::atomic::AtomicI32::new(0);
    let repeater = Repeater::new(
        || counter.fetch_add(1, std::sync::atomic::Ordering::SeqCst) + 1,
        5,
    );

    let results = repeater.run();
    assert_eq!(results.len(), 5);
}

#[test]
fn mission_1_5_run_once() {
    let result: i32 = run_once(|| 42);
    assert_eq!(result, 42);

    let s = String::from("hello");
    let result: String = run_once(|| s);
    assert_eq!(result, "hello");
}

#[test]
fn mission_2_animal_shelter() {
    let mut shelter = AnimalShelter::new();

    shelter.add(Dog {
        name: "멍멍이".to_string(),
    });
    shelter.add(Cat {
        name: "야옹이".to_string(),
    });
    shelter.add(Dog {
        name: "바둑이".to_string(),
    });

    assert_eq!(shelter.count(), 3);

    let sounds = shelter.all_speak();
    assert!(sounds.contains(&"멍멍!".to_string()));
    assert!(sounds.contains(&"야옹~".to_string()));
}

#[test]
fn mission_3_static_str() {
    let s: &'static str = get_static_str();
    assert!(!s.is_empty());
}

#[test]
fn mission_4_send_sync_basics() {
    require_send(String::from("hello"));
    require_send(42i32);
    require_send(vec![1, 2, 3]);

    let s = String::from("hello");
    require_sync(&s);

    let arc = Arc::new(Mutex::new(0));
    require_send(arc.clone());
    require_sync(&arc);
}

#[test]
fn mission_4_share_counter() {
    let result = share_counter_between_threads();
    assert_eq!(result, 2);
}

#[test]
fn mission_5_execute_with_result() {
    let result = execute_with_result(|| 42);
    assert_eq!(result, 42);

    let result = execute_with_result(|| String::from("Hello from thread"));
    assert_eq!(result, "Hello from thread");
}

#[test]
fn repeater_returns_results_in_the_order_of_the_runs() {
    let counter = std::cell::Cell::new(0);
    let repeater = Repeater::new(
        || {
            counter.set(counter.get() + 1);
            counter.get()
        },
        4,
    );
    assert_eq!(repeater.run(), vec![1, 2, 3, 4]);
    assert_eq!(repeater.run(), vec![5, 6, 7, 8]);
    let never = Repeater::new(|| 1, 0);
    assert!(never.run().is_empty());
    assert!(call_many_times(|| 1, 0).is_empty());
}

#[test]
fn accumulate_adds_three_results() {
    assert_eq!(call_and_accumulate(|| 5), 15);
    assert_eq!(call_and_accumulate(|| -1), -3);
    let mut step = 10;
    assert_eq!(
        call_and_accumulate(|| {
            step *= 2;
            step
        }),
        140
    );
}

#[test]
fn shelter_keeps_sounds_in_the_order_of_arrival() {
    let mut shelter = AnimalShelter::default();
    assert_eq!(shelter.count(), 0);
    assert!(shelter.all_speak().is_empty());
    shelter.add(Cat { name: "a".to_string() });
    shelter.add(Dog { name: "b".to_string() });
    shelter.add(Cat { name: "c".to_string() });
    assert_eq!(
        shelter.all_speak(),
        vec!["야옹~".to_string(), "멍멍!".to_string(), "야옹~".to_string()]
    );
    let dog = Dog { name: "b".to_string() };
    assert_eq!(dog.name(), "b");
    assert_eq!(dog.speak(), "멍멍!");
    let cat = Cat { name: "c".to_string() };
    assert_eq!(cat.name(), "c");
    assert_eq!(cat.speak(), "야옹~");
}

#[test]
fn static_str_exact_text() {
    assert_eq!(get_static_str(), "hello");
}

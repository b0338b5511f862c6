use panduza_utils::async_callback_manager::AsyncCallbackManager;
use std::cell::RefCell;
use std::rc::Rc;

type Callback<T> = Box<dyn Fn(T)>;

#[test]
fn test_callback_manager() {
    let mut manager = AsyncCallbackManager::<Callback<i32>>::new();
    let counter = Rc::new(RefCell::new(0));

    // Add a callback
    let counter_clone = counter.clone();
    let callback: Callback<i32> = Box::new(move |value: i32| {
        *counter_clone.borrow_mut() += value;
    });

    let id = manager.add(callback);

    // Execute the callback
    if let Some(cb) = manager.get_callback(id) {
        cb(5);
    }

    assert_eq!(*counter.borrow(), 5);
    assert_eq!(manager.count(), 1);

    // Remove the callback
    assert!(manager.remove(id));
    assert_eq!(manager.count(), 0);
    assert!(!manager.has_callback(id));
}

#[test]
fn test_execute_all_callbacks() {
    let mut manager = AsyncCallbackManager::<Callback<String>>::new();
    let results = Rc::new(RefCell::new(Vec::<String>::new()));

    // Add multiple callbacks
    for i in 1..=3 {
        let results_clone = results.clone();
        let suffix = format!("_callback_{}", i);
        let callback: Callback<String> = Box::new(move |data: String| {
            results_clone.borrow_mut().push(format!("{}{}", data, suffix));
        });
        manager.add(callback);
    }

    // Fan out: every registered callback once, each on its own copy
    let data = "test".to_string();
    for entry in manager.callbacks() {
        entry.1(data.clone());
    }

    let final_results = results.borrow();
    assert_eq!(final_results.len(), 3);
    assert!(final_results.contains(&"test_callback_1".to_string()));
    assert!(final_results.contains(&"test_callback_2".to_string()));
    assert!(final_results.contains(&"test_callback_3".to_string()));
}

#[test]
fn test_monotonic_unique_ids() {
    let mut manager = AsyncCallbackManager::<u32>::new();
    let a = manager.add(10);
    let b = manager.add(20);
    assert!(manager.remove(a));
    let c = manager.add(30);
    manager.clear();
    let d = manager.add(40);
    assert_eq!(a, 0);
    assert_eq!(b, 1);
    assert_eq!(c, 2);
    assert_eq!(d, 3);
    assert!(a < b && b < c && c < d);
}

#[test]
fn test_add_remove_round_trip() {
    let mut manager = AsyncCallbackManager::<u32>::new();
    manager.add(1);
    let before = manager.count();
    let k = manager.add(2);
    assert!(manager.has_callback(k));
    assert_eq!(manager.count(), before + 1);
    assert!(manager.remove(k));
    assert!(!manager.has_callback(k));
    assert_eq!(manager.count(), before);
    assert!(!manager.remove(k));
}

#[test]
fn test_clear_empties_without_resetting_ids() {
    let mut manager = AsyncCallbackManager::<u32>::new();
    let a = manager.add(1);
    let b = manager.add(2);
    manager.clear();
    assert_eq!(manager.count(), 0);
    assert!(manager.callback_ids().is_empty());
    let c = manager.add(3);
    assert!(c > a && c > b);
    assert_eq!(c, 2);
}

#[test]
fn test_idempotent_clear() {
    let mut manager = AsyncCallbackManager::<u32>::new();
    manager.clear();
    assert_eq!(manager.count(), 0);
    manager.clear();
    assert_eq!(manager.count(), 0);
}

#[test]
fn test_targeted_dispatch() {
    let mut manager = AsyncCallbackManager::<Callback<i32>>::new();
    let received = Rc::new(RefCell::new(Vec::<i32>::new()));
    let received_clone = received.clone();
    let id = manager.add(Box::new(move |v: i32| {
        received_clone.borrow_mut().push(v);
    }));

    // Dispatch to the registered id: exactly one accumulation
    let found = match manager.get_callback(id) {
        Some(cb) => {
            cb(42);
            true
        }
        None => false,
    };
    assert!(found);
    assert_eq!(*received.borrow(), vec![42]);

    // Dispatch to an unregistered id: reported missing, no accumulation
    let missing = id + 1;
    let found = match manager.get_callback(missing) {
        Some(cb) => {
            cb(43);
            true
        }
        None => false,
    };
    assert!(!found);
    assert_eq!(*received.borrow(), vec![42]);
}

#[test]
fn test_count_matches_callback_ids() {
    let mut manager = AsyncCallbackManager::<u32>::new();
    for v in 0..20 {
        manager.add(v);
    }
    for id in [0u64, 3, 7, 11, 19] {
        assert!(manager.remove(id));
    }
    manager.add(99);
    let ids = manager.callback_ids();
    assert_eq!(ids.len(), manager.count());
    for w in ids.windows(2) {
        assert!(w[0] < w[1]);
    }
    for id in &ids {
        assert!(manager.has_callback(*id));
    }
}

#[test]
fn test_callback_ids_is_a_snapshot() {
    let mut manager = AsyncCallbackManager::<u32>::new();
    manager.add(1);
    let ids = manager.callback_ids();
    manager.add(2);
    assert_eq!(ids, vec![0]);
    assert_eq!(manager.callback_ids(), vec![0, 1]);
}

#[test]
fn test_default_is_empty() {
    let manager = AsyncCallbackManager::<u32>::default();
    assert_eq!(manager.count(), 0);
    let mut manager = manager;
    assert_eq!(manager.add(5), 0);
}

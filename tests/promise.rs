use proxy_wasm::http_client::{CallResponse, HttpClient};
use proxy_wasm::promise::{Promise, PromiseState, Promises};
use std::cell::RefCell;
use std::rc::Rc;

type PromiseSet<T> = Promises<T, Box<dyn Fn(T) -> T>, Box<dyn Fn(Vec<T>) -> T>, Box<dyn Fn(String)>>;

#[test]
fn test_promise_new() {
    let mut set: PromiseSet<i32> = Promises::new();
    let promise = Promise::new(&mut set);
    assert!(matches!(*set.state(promise), PromiseState::Pending));
    assert!(!set.has_continuation(promise));
    assert!(!set.has_rejection_handler(promise));
}

#[test]
fn test_promise_fulfill() {
    let touched = Rc::new(RefCell::new(false));
    let touched_clone = touched.clone();

    let mut set: PromiseSet<i32> = Promises::new();
    let promise = Promise::new(&mut set);
    let _next_promise = promise.then(
        &mut set,
        Box::new(move |result| {
            assert_eq!(result, 42);
            *touched_clone.borrow_mut() = true;
            result
        }),
    );

    promise.fulfill(&mut set, 42);
    assert!(touched.take())
}

#[test]
fn test_promise_reject() {
    let touched = Rc::new(RefCell::new(false));
    let touched_clone = touched.clone();

    let mut set: PromiseSet<String> = Promises::new();
    let promise = Promise::new(&mut set);
    let _next_promise = promise.catch(
        &mut set,
        Box::new(move |err| {
            assert_eq!(err, "Error");
            *touched_clone.borrow_mut() = true;
        }),
    );

    promise.reject(&mut set, "Error".to_string());
    assert!(touched.take())
}

#[test]
fn test_promise_chain() {
    let touched = Rc::new(RefCell::new(false));
    let touched_clone = touched.clone();

    let mut set: PromiseSet<i32> = Promises::new();
    let promise = Promise::new(&mut set);
    let next_promise = promise.then(
        &mut set,
        Box::new(|result| {
            assert_eq!(result, 10);
            20
        }),
    );

    next_promise.then(
        &mut set,
        Box::new(move |result| {
            assert_eq!(result, 20);
            *touched_clone.borrow_mut() = true;
            result
        }),
    );

    promise.fulfill(&mut set, 10);
    assert!(touched.take())
}

#[test]
fn test_all_of_success() {
    let touched = Rc::new(RefCell::new(false));
    let touched_clone = touched.clone();

    let mut set: PromiseSet<i32> = Promises::new();
    let promise1 = Promise::new(&mut set);
    let promise2 = Promise::new(&mut set);

    let all_promise = Promise::all_of(&mut set, vec![promise1, promise2]);

    promise1.fulfill(&mut set, 42);
    promise2.fulfill(&mut set, 100);

    let next = all_promise.then(
        &mut set,
        Box::new(move |results| {
            assert_eq!(results.len(), 2);
            assert_eq!(results[0], 42);
            assert_eq!(results[1], 100);
            *touched_clone.borrow_mut() = true;
            0
        }),
    );
    next.catch(
        &mut set,
        Box::new(|_err| {
            panic!("Should not reach here");
        }),
    );

    assert!(touched.take())
}

#[test]
fn test_all_of_failure() {
    let touched = Rc::new(RefCell::new(false));
    let touched_clone = touched.clone();

    let mut set: PromiseSet<i32> = Promises::new();
    let promise1 = Promise::new(&mut set);
    let promise2 = Promise::new(&mut set);

    let all_promise = Promise::all_of(&mut set, vec![promise1, promise2]);

    promise1.reject(&mut set, "Error 1".to_string());
    promise2.reject(&mut set, "Error 2".to_string());

    let next = all_promise.then(
        &mut set,
        Box::new(|_results| {
            panic!("Should not reach here");
        }),
    );
    next.catch(
        &mut set,
        Box::new(move |err| {
            assert_eq!(err, "Error 1");
            *touched_clone.borrow_mut() = true;
        }),
    );

    assert!(touched.take())
}

#[test]
fn test_all_of_mixed_results() {
    let touched = Rc::new(RefCell::new(false));
    let touched_clone = touched.clone();

    let mut set: PromiseSet<i32> = Promises::new();
    let promise1 = Promise::new(&mut set);
    let promise2 = Promise::new(&mut set);

    let all_promise = Promise::all_of(&mut set, vec![promise1, promise2]);

    promise1.reject(&mut set, "Error".to_string());
    promise2.fulfill(&mut set, 100);

    let next = all_promise.then(
        &mut set,
        Box::new(|_| {
            panic!("Should not reach here");
        }),
    );
    next.catch(
        &mut set,
        Box::new(move |reason| {
            assert_eq!(reason, "Error".to_string());
            *touched_clone.borrow_mut() = true;
        }),
    );

    assert!(touched.take())
}

#[test]
fn test_all_of_empty() {
    let touched = Rc::new(RefCell::new(false));
    let touched_clone = touched.clone();

    let mut set: PromiseSet<i32> = Promises::new();
    let all_promise = Promise::all_of(&mut set, vec![]);

    let next = all_promise.then(
        &mut set,
        Box::new(move |results| {
            assert!(results.is_empty());
            *touched_clone.borrow_mut() = true;
            0
        }),
    );
    next.catch(
        &mut set,
        Box::new(|_err| {
            panic!("Should not reach here");
        }),
    );

    assert!(touched.take())
}

fn sum_of_values() -> Box<dyn Fn(Vec<i32>) -> i32> {
    Box::new(|values: Vec<i32>| values[0] * 10 + values[1])
}

#[test]
fn all_of_keeps_input_order_whatever_the_completion_order() {
    let mut set: PromiseSet<i32> = Promises::new();
    let first = Promise::new(&mut set);
    let second = Promise::new(&mut set);
    let join = Promise::all_of(&mut set, vec![first, second]);
    let joined = join.then(&mut set, sum_of_values());
    second.fulfill(&mut set, 2);
    assert_eq!(*set.state(joined), PromiseState::Pending);
    first.fulfill(&mut set, 1);
    assert_eq!(*set.state(joined), PromiseState::Fulfilled(12));
}

#[test]
fn all_of_ignores_fulfillment_after_rejection() {
    let mut set: PromiseSet<i32> = Promises::new();
    let first = Promise::new(&mut set);
    let second = Promise::new(&mut set);
    let join = Promise::all_of(&mut set, vec![first, second]);
    let joined = join.then(&mut set, sum_of_values());
    first.reject(&mut set, "first".to_string());
    second.fulfill(&mut set, 2);
    assert_eq!(*set.state(joined), PromiseState::Rejected("first".to_string()));
}

#[test]
fn then_chain_applies_both_functions() {
    let mut set: PromiseSet<i32> = Promises::new();
    let p = Promise::new(&mut set);
    let q = p.then(&mut set, Box::new(|x| x + 1));
    let r = q.then(&mut set, Box::new(|x| x * 3));
    p.fulfill(&mut set, 4);
    assert_eq!(*set.state(r), PromiseState::Fulfilled(15));
}

#[test]
fn then_on_fulfilled_promise_runs_at_once() {
    let mut set: PromiseSet<i32> = Promises::new();
    let p = Promise::new(&mut set);
    p.fulfill(&mut set, 7);
    let q = p.then(&mut set, Box::new(|x| x * 2));
    assert_eq!(*set.state(q), PromiseState::Fulfilled(14));
}

#[test]
fn rejection_passes_through_then() {
    let mut set: PromiseSet<i32> = Promises::new();
    let p = Promise::new(&mut set);
    let q = p.then(&mut set, Box::new(|x| x * 2));
    p.reject(&mut set, "down".to_string());
    assert_eq!(*set.state(q), PromiseState::Rejected("down".to_string()));
}

#[test]
fn second_resolution_is_ignored() {
    let mut set: PromiseSet<i32> = Promises::new();
    let p = Promise::new(&mut set);
    p.fulfill(&mut set, 1);
    p.fulfill(&mut set, 2);
    p.reject(&mut set, "late".to_string());
    assert_eq!(*set.state(p), PromiseState::Fulfilled(1));
}

#[test]
fn any_of_takes_first_fulfillment() {
    let mut set: PromiseSet<i32> = Promises::new();
    let first = Promise::new(&mut set);
    let second = Promise::new(&mut set);
    let race = Promise::any_of(&mut set, vec![first, second]);
    first.reject(&mut set, "no".to_string());
    second.fulfill(&mut set, 5);
    assert_eq!(*set.state(race), PromiseState::Fulfilled(5));
    let third = Promise::new(&mut set);
    let fourth = Promise::new(&mut set);
    let race2 = Promise::any_of(&mut set, vec![third, fourth]);
    fourth.fulfill(&mut set, 9);
    third.fulfill(&mut set, 8);
    assert_eq!(*set.state(race2), PromiseState::Fulfilled(9));
}

#[test]
fn any_of_rejects_when_all_reject_with_first_reason() {
    let mut set: PromiseSet<i32> = Promises::new();
    let first = Promise::new(&mut set);
    let second = Promise::new(&mut set);
    let race = Promise::any_of(&mut set, vec![first, second]);
    second.reject(&mut set, "second input".to_string());
    assert_eq!(*set.state(race), PromiseState::Pending);
    first.reject(&mut set, "first input".to_string());
    assert_eq!(*set.state(race), PromiseState::Rejected("second input".to_string()));
}

#[test]
fn http_client_fulfills_promise_of_token() {
    let mut set: PromiseSet<CallResponse> = Promises::new();
    let mut client = HttpClient::new();
    let promise = client.dispatch(&mut set, 7);
    let sizes = promise.then(&mut set, Box::new(|(t, h, b, tr)| (t, h + 1, b, tr)));
    assert!(client.tracks(7));
    client.callback(&mut set, 7, 2, 128, 0);
    assert_eq!(*set.state(promise), PromiseState::Fulfilled((7, 2, 128, 0)));
    assert_eq!(*set.state(sizes), PromiseState::Fulfilled((7, 3, 128, 0)));
    assert!(!client.tracks(7));
}

#[test]
fn all_of_counts_inputs_resolved_before_the_join() {
    let mut set: PromiseSet<i32> = Promises::new();
    let first = Promise::new(&mut set);
    let second = Promise::new(&mut set);
    first.fulfill(&mut set, 3);
    let join = Promise::all_of(&mut set, vec![first, second]);
    let joined = join.then(&mut set, sum_of_values());
    assert_eq!(*set.state(joined), PromiseState::Pending);
    second.fulfill(&mut set, 4);
    assert_eq!(*set.state(joined), PromiseState::Fulfilled(34));
}

#[test]
fn all_of_with_rejected_input_is_rejected_at_once() {
    let touched = Rc::new(RefCell::new(false));
    let touched_clone = touched.clone();
    let mut set: PromiseSet<i32> = Promises::new();
    let first = Promise::new(&mut set);
    let second = Promise::new(&mut set);
    second.reject(&mut set, "early".to_string());
    let join = Promise::all_of(&mut set, vec![first, second]);
    join.catch(
        &mut set,
        Box::new(move |reason| {
            assert_eq!(reason, "early");
            *touched_clone.borrow_mut() = true;
        }),
    );
    assert!(touched.take());
    let joined = join.then(&mut set, sum_of_values());
    assert_eq!(*set.state(joined), PromiseState::Rejected("early".to_string()));
}

#[test]
fn any_of_with_fulfilled_input_is_fulfilled_at_once() {
    let mut set: PromiseSet<i32> = Promises::new();
    let first = Promise::new(&mut set);
    let second = Promise::new(&mut set);
    second.fulfill(&mut set, 6);
    let race = Promise::any_of(&mut set, vec![first, second]);
    assert_eq!(*set.state(race), PromiseState::Fulfilled(6));
    first.fulfill(&mut set, 7);
    assert_eq!(*set.state(race), PromiseState::Fulfilled(6));
}

#[test]
fn any_of_with_all_inputs_rejected_is_rejected_with_first_reason() {
    let mut set: PromiseSet<i32> = Promises::new();
    let first = Promise::new(&mut set);
    let second = Promise::new(&mut set);
    first.reject(&mut set, "one".to_string());
    second.reject(&mut set, "two".to_string());
    let race = Promise::any_of(&mut set, vec![first, second]);
    assert_eq!(*set.state(race), PromiseState::Rejected("one".to_string()));
    let empty = Promise::any_of(&mut set, vec![]);
    assert_eq!(*set.state(empty), PromiseState::Pending);
}

#[test]
fn catch_on_fulfilled_promise_does_nothing() {
    let mut set: PromiseSet<i32> = Promises::new();
    let p = Promise::new(&mut set);
    p.fulfill(&mut set, 1);
    let same = p.catch(&mut set, Box::new(|_| panic!("not rejected")));
    assert_eq!(same, p);
    assert!(!set.has_rejection_handler(p));
}

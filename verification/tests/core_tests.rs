use error2::{
    extract_error_message, extract_error_stack, u32_to_dec, Backtrace, DoubleLocations, Location,
    Locations, Message,
};

fn loc(file: &str, line: u32, column: u32) -> Location {
    Location::new(file, line, column)
}

#[test]
fn test_u32_to_dec_renders_decimal() {
    assert_eq!(u32_to_dec(0), "0");
    assert_eq!(u32_to_dec(7), "7");
    assert_eq!(u32_to_dec(10), "10");
    assert_eq!(u32_to_dec(305), "305");
    assert_eq!(u32_to_dec(4294967295), "4294967295");
}

#[test]
fn test_location_accessors() {
    let l = loc("src/main.rs", 14, 9);
    assert_eq!(l.file(), "src/main.rs");
    assert_eq!(l.line(), 14);
    assert_eq!(l.column(), 9);
    assert_eq!(l.to_text(), "src/main.rs:14:9");
    assert!(!l.is_uninit());
    assert!(Location::uninit().is_uninit());
}

#[test]
fn test_locations_record_in_order() {
    let mut ls = Locations::new(loc("a.rs", 1, 1));
    ls.attach_location(loc("b.rs", 2, 2));
    ls.attach_location(loc("c.rs", 3, 3));
    let inner = ls.inner();
    assert_eq!(inner.len(), 3);
    assert_eq!(inner[0].file(), "a.rs");
    assert_eq!(inner[2].file(), "c.rs");
    let v = ls.into_inner();
    assert_eq!(v.len(), 3);
}

#[test]
fn test_message_fields() {
    let m = Message::new("my::Error", String::from("boom"));
    assert_eq!(m.type_label(), "my::Error");
    assert_eq!(m.display(), "boom");
}

#[test]
fn test_double_locations_fills_then_rejects() {
    let mut d = DoubleLocations::new(loc("a.rs", 1, 1));
    assert!(!d.is_full());
    let leftover = d.push(loc("a.rs", 2, 2));
    assert!(leftover.is_none());
    assert!(d.is_full());
    let leftover = d.push(loc("a.rs", 3, 3));
    assert!(leftover.is_some());
    assert_eq!(leftover.unwrap().line(), 3);
    let (first, second) = d.inner();
    assert_eq!(first.line(), 1);
    assert_eq!(second.line(), 2);
}

#[test]
fn test_backtrace_head_and_entries() {
    let bt = Backtrace::new();
    let (head, rest) = bt.head_and_entries();
    assert!(head.is_none());
    assert!(rest.is_empty());

    let bt = Backtrace::with_head("std::io::Error", String::from("file not found"));
    let (head, rest) = bt.head_and_entries();
    assert_eq!(head.unwrap().type_label(), "std::io::Error");
    assert!(rest.is_empty());

    let mut bt = Backtrace::with_head("std::io::Error", String::from("file not found"));
    bt.push_error("my::Error", String::from("io failed"), loc("a.rs", 10, 5));
    let (head, rest) = bt.head_and_entries();
    assert!(head.is_some());
    assert_eq!(rest.len(), 2);
}

#[test]
fn test_backtrace_take_empties() {
    let mut bt = Backtrace::with_head("t", String::from("d"));
    let taken = bt.take();
    let (head, _) = taken.head_and_entries();
    assert!(head.is_some());
    let (head, rest) = bt.head_and_entries();
    assert!(head.is_none());
    assert!(rest.is_empty());
}

#[test]
fn test_extract_error_stack_orders_innermost_first() {
    let mut bt = Backtrace::with_head("std::io::Error", String::from("file not found"));
    bt.push_error("my::Error", String::from("io failed"), loc("a.rs", 10, 5));
    bt.push_location(loc("a.rs", 20, 9));
    let stack = extract_error_stack(&bt);
    assert_eq!(stack.len(), 2);
    assert_eq!(
        stack[0],
        "my::Error: io failed\n    at a.rs:10:5\n    at a.rs:20:9"
    );
    assert_eq!(stack[1], "std::io::Error: file not found");
}

#[test]
fn test_extract_error_message_joins_lines() {
    let mut bt = Backtrace::with_head("std::io::Error", String::from("file not found"));
    bt.push_error("my::Error", String::from("io failed"), loc("a.rs", 10, 5));
    bt.push_location(loc("a.rs", 20, 9));
    let msg = extract_error_message(&bt);
    assert_eq!(
        msg,
        "my::Error: io failed\n    at a.rs:10:5\n    at a.rs:20:9\nstd::io::Error: file not found"
    );
    assert_eq!(extract_error_message(&Backtrace::new()), "");
}

#[test]
fn test_push_location_opens_new_run_when_full() {
    let mut bt = Backtrace::new();
    bt.push_error("e", String::from("m"), loc("a.rs", 1, 1));
    bt.push_location(loc("a.rs", 2, 2));
    bt.push_location(loc("a.rs", 3, 3));
    let stack = extract_error_stack(&bt);
    assert_eq!(
        stack[0],
        "e: m\n    at a.rs:1:1\n    at a.rs:2:2\n    at a.rs:3:3"
    );
}

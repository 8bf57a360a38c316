use error2::{ChainError, Interner, Location, NextError, SmallString, StrId};
use error2::{error_stack, ErrorExt};

#[test]
fn test_intern_hands_out_stable_ids() {
    let mut table = Interner::new();
    let a = table.intern_static("alpha");
    let b = table.intern_normal("beta");
    let a2 = table.intern_normal("alpha");
    assert_eq!(a, a2);
    assert_ne!(a, b);
    assert_eq!(table.lookup(&a), "alpha");
    assert_eq!(table.lookup(&b), "beta");
}

#[test]
fn test_intern_owned_strings_round_trip() {
    let mut table = Interner::new();
    let s = String::from("gamma");
    let id = table.intern_normal(s.as_str());
    assert_eq!(table.lookup(&id), "gamma");
}

#[test]
fn test_str_id_uninit_marker() {
    let id = StrId::uninit();
    assert!(id.is_uninit());
    let id = StrId::new(5);
    assert!(!id.is_uninit());
    assert_eq!(id.inner(), 5);
}

#[test]
fn test_small_string_as_str() {
    assert_eq!(SmallString::Borrowed("fixed").as_str(), "fixed");
    assert_eq!(SmallString::Owned(String::from("grown")).as_str(), "grown");
}

#[test]
fn test_error_stack_numbers_the_chain() {
    let chain = ChainError {
        display: String::from("outer"),
        location: Location::new("a.rs", 1, 2),
        next: NextError::Err2(Box::new(ChainError {
            display: String::from("middle"),
            location: Location::new("b.rs", 3, 4),
            next: NextError::Std(String::from("inner")),
        })),
    };
    let stack = error_stack(&chain);
    assert_eq!(
        stack,
        vec![
            String::from("0: outer, at a.rs:1:2"),
            String::from("1: middle, at b.rs:3:4"),
            String::from("2: inner"),
        ]
    );
}

#[test]
fn test_error_stack_ends_without_next() {
    let chain = ChainError {
        display: String::from("only"),
        location: Location::new("a.rs", 9, 9),
        next: NextError::Nothing,
    };
    let stack = error_stack(&chain);
    assert_eq!(stack, vec![String::from("0: only, at a.rs:9:9")]);
}

#[test]
fn test_chain_entry_hands_out_location() {
    let chain = ChainError {
        display: String::from("only"),
        location: Location::new("a.rs", 9, 8),
        next: NextError::Nothing,
    };
    let (l, next) = chain.entry();
    assert_eq!(l.line(), 9);
    assert!(matches!(next, NextError::Nothing));
}

use error2::{
    error_message, push_error, Attach, AttachIter, Backtrace, BoxedError2, Context, ErasedError,
    Error2, ErrorKind, Location, NoneError, OptionExt, ResultExt, RootError, SourceError,
    SourceToTarget, ViaErr2, ViaNone, ViaRoot, ViaStd,
};

fn loc(line: u32) -> Location {
    Location::new("t.rs", line, 1)
}

fn ok_of<T>(r: Result<T, BoxedError2>) -> T {
    match r {
        Ok(t) => t,
        Err(_) => panic!("expected success"),
    }
}

fn foreign(code: u64, label: &str, display: &str) -> ErasedError {
    ErasedError {
        type_code: code,
        type_label: String::from(label),
        display: String::from(display),
        backtrace: Backtrace::new(),
    }
}

#[test]
fn test_from_msg_builds_root() {
    let e = BoxedError2::from_msg_with_location(String::from("boom"), loc(3));
    assert!(e.is_root());
    assert!(!e.is(7));
    assert_eq!(
        error_message(&e),
        "error2::BoxedError2: boom\n    at t.rs:3:1"
    );
}

#[test]
fn test_from_root_builds_root() {
    let e = BoxedError2::from_root_with_location(String::from("broken"), loc(4));
    assert!(e.is_root());
    assert_eq!(e.message(), "broken");
}

#[test]
fn test_from_std_wraps_foreign_error() {
    let src = foreign(7, "io::Error", "file not found");
    let e = BoxedError2::from_std_with_location(SourceError::Erased(src), loc(9));
    assert!(!e.is_root());
    assert!(e.is(7));
    assert!(!e.is(8));
    assert_eq!(
        error_message(&e),
        "error2::BoxedError2: file not found\n    at t.rs:9:1\nio::Error: file not found"
    );
}

#[test]
fn test_from_std_boxed_only_records_location() {
    let src = foreign(7, "io::Error", "gone");
    let e = BoxedError2::from_std_with_location(SourceError::Erased(src), loc(1));
    let e = BoxedError2::from_std_with_location(SourceError::Boxed(Box::new(e)), loc(2));
    assert!(e.is(7));
    assert_eq!(
        error_message(&e),
        "error2::BoxedError2: gone\n    at t.rs:1:1\n    at t.rs:2:1\nio::Error: gone"
    );
}

#[test]
fn test_from_err2_uses_carried_backtrace() {
    let mut src = foreign(9, "app::Error", "bad state");
    src.backtrace
        .push_error("app::Error", String::from("bad state"), loc(5));
    let e = BoxedError2::from_err2_with_location(SourceError::Erased(src), loc(6));
    assert!(e.is(9));
    assert_eq!(
        error_message(&e),
        "error2::BoxedError2: bad state\n    at t.rs:6:1\napp::Error: bad state\n    at t.rs:5:1"
    );
}

#[test]
fn test_downcast_hits_and_misses() {
    let src = foreign(7, "io::Error", "x");
    let e = BoxedError2::from_std_with_location(SourceError::Erased(src), loc(1));
    match e.downcast_ref(7) {
        Some(ErrorKind::Std { source, .. }) => assert_eq!(source.display, "x"),
        _ => panic!("expected a foreign hit"),
    }
    assert!(e.downcast_ref(8).is_none());
    let e = match e.downcast(8) {
        Err(e) => e,
        Ok(_) => panic!("wrong code must miss"),
    };
    match e.downcast(7) {
        Ok(ErrorKind::Std { source, .. }) => assert_eq!(source.type_label, "io::Error"),
        _ => panic!("expected a foreign hit"),
    }
}

#[test]
fn test_downcast_err2_variant() {
    let src = foreign(9, "app::Error", "y");
    let e = BoxedError2::from_err2_with_location(SourceError::Erased(src), loc(1));
    match e.downcast(9) {
        Ok(ErrorKind::Err2 { source }) => assert_eq!(source.display, "y"),
        _ => panic!("expected an owned hit"),
    }
}

#[test]
fn test_push_error_records_label_and_message() {
    let mut e = BoxedError2::from_msg_with_location(String::from("first"), loc(1));
    push_error(&mut e, loc(2));
    assert_eq!(
        error_message(&e),
        "error2::BoxedError2: first\n    at t.rs:2:1\nerror2::BoxedError2: first\n    at t.rs:1:1"
    );
}

#[test]
fn test_attach_records_location() {
    let e = BoxedError2::from_msg_with_location(String::from("boom"), loc(1));
    let e = e.attach_location(loc(2));
    assert_eq!(
        error_message(&e),
        "error2::BoxedError2: boom\n    at t.rs:1:1\n    at t.rs:2:1"
    );
}

#[test]
fn test_attach_on_result() {
    let ok: Result<u32, BoxedError2> = Ok(5);
    assert_eq!(ok_of(ok.attach_location(loc(2))), 5);
    let err: Result<u32, BoxedError2> =
        Err(BoxedError2::from_msg_with_location(String::from("n"), loc(1)));
    let err = err.attach_location(loc(2));
    assert!(err.is_err());
}

#[test]
fn test_attach_iter_attaches_each_item() {
    let items: Vec<Result<u32, BoxedError2>> = vec![
        Ok(1),
        Err(BoxedError2::from_msg_with_location(String::from("n"), loc(1))),
    ];
    let mut it = AttachIter::new(items, loc(9));
    match it.next() {
        Some(Ok(v)) => assert_eq!(v, 1),
        _ => panic!("first item is ok"),
    }
    match it.next() {
        Some(Err(e)) => assert_eq!(
            error_message(&e),
            "error2::BoxedError2: n\n    at t.rs:1:1\n    at t.rs:9:1"
        ),
        _ => panic!("second item errs"),
    }
    assert!(it.next().is_none());
}

#[test]
fn test_context_wraps_result_error() {
    let r: Result<u32, ErasedError> = Err(foreign(7, "io::Error", "gone"));
    let r: Result<u32, BoxedError2> = match r {
        Ok(v) => Ok(v),
        Err(e) => Err(ViaStd.source_to_target(SourceError::Erased(e), loc(3))),
    };
    assert!(r.unwrap_err().is(7));
}

#[test]
fn test_context_trait_on_result() {
    let r: Result<u32, SourceError> =
        Err(SourceError::Erased(foreign(7, "io::Error", "gone")));
    let wrapped = Context::context_and_location(r, ViaStd, loc(3));
    assert!(wrapped.unwrap_err().is(7));

    let ok: Result<u32, SourceError> = Ok(11);
    assert_eq!(ok_of(Context::context_and_location(ok, ViaStd, loc(3))), 11);
}

#[test]
fn test_context_trait_on_option() {
    let none: Option<u32> = None;
    let wrapped = Context::<u32, error2::ViaPartial, NoneError, BoxedError2, ViaRoot>::
        context_and_location(none, ViaRoot(String::from("missing")), loc(4));
    let e = wrapped.unwrap_err();
    assert!(e.is_root());
    assert_eq!(e.message(), "missing");

    let some: Option<u32> = Some(3);
    let wrapped = Context::<u32, error2::ViaPartial, NoneError, BoxedError2, ViaRoot>::
        context_and_location(some, ViaRoot(String::from("missing")), loc(4));
    assert_eq!(ok_of(wrapped), 3);
}

#[test]
fn test_option_ext_wraps_none() {
    let none: Option<u32> = None;
    let r = OptionExt::context_and_location(none, ViaNone(String::from("absent")), loc(8));
    let e = r.unwrap_err();
    assert!(e.is_root());
    assert_eq!(e.message(), "absent");

    let some: Option<u32> = Some(2);
    let r = OptionExt::context_and_location(some, ViaNone(String::from("absent")), loc(8));
    assert_eq!(ok_of(r), 2);
}

#[test]
fn test_result_ext_wraps_error() {
    let r: Result<u32, SourceError> =
        Err(SourceError::Erased(foreign(5, "db::Error", "locked")));
    let wrapped = ResultExt::context_and_location(r, ViaErr2, loc(2));
    assert!(wrapped.unwrap_err().is(5));
}

#[test]
fn test_root_error_builds_and_fails() {
    let e = ViaRoot(String::from("nothing here")).build_with_location(loc(7));
    assert!(e.is_root());
    assert_eq!(e.message(), "nothing here");

    let r: Result<u32, BoxedError2> =
        ViaRoot(String::from("nothing here")).fail_with_location(loc(7));
    assert!(r.unwrap_err().is_root());
}

#[test]
fn test_record_location_keeps_payload() {
    let mut e = BoxedError2::from_msg_with_location(String::from("kept"), loc(1));
    e.record_location(loc(2));
    assert!(e.is_root());
    assert_eq!(e.message(), "kept");
}

#[test]
fn test_none_error_message() {
    assert_eq!(NoneError.message(), "NoneError");
}

#[test]
fn test_error2_trait_surface() {
    let e = BoxedError2::from_msg_with_location(String::from("m"), loc(1));
    assert_eq!(e.type_label(), "error2::BoxedError2");
    assert_eq!(e.message(), "m");
    let bt = e.backtrace();
    let (head, rest) = bt.head_and_entries();
    assert!(head.is_none());
    assert_eq!(rest.len(), 2);
}

#[test]
fn test_with_context_consults_closure_on_failure_only() {
    let r: Result<u32, SourceError> =
        Err(SourceError::Erased(foreign(7, "io::Error", "gone")));
    let wrapped = Context::with_context_and_location(r, || ViaStd, loc(3));
    assert!(wrapped.is_err());

    let ok: Result<u32, SourceError> = Ok(4);
    let wrapped = Context::with_context_and_location(ok, || ViaStd, loc(3));
    assert_eq!(ok_of(wrapped), 4);
}

#[test]
fn test_option_ext_with_context() {
    let none: Option<u32> = None;
    let r = OptionExt::with_context_and_location(
        none,
        || ViaNone(String::from("made late")),
        loc(8),
    );
    assert_eq!(r.unwrap_err().message(), "made late");
}

#[test]
fn test_result_ext_with_context() {
    let r: Result<u32, SourceError> =
        Err(SourceError::Erased(foreign(5, "db::Error", "locked")));
    let wrapped = ResultExt::with_context_and_location(r, || ViaErr2, loc(2));
    assert!(wrapped.unwrap_err().is(5));
}

#[test]
fn test_full_wrap_through_half_wrap() {
    let e = error2::ErrorFullWrap::<error2::ViaPartial, NoneError, BoxedError2>::full_wrap(
        ViaNone(String::from("lifted")),
        NoneError,
        loc(5),
    );
    assert!(e.is_root());
    assert_eq!(e.message(), "lifted");
}

#[test]
fn test_boxed_error2_through_box() {
    let e = Box::new(BoxedError2::from_msg_with_location(String::from("boxed"), loc(1)));
    assert_eq!(e.message(), "boxed");
    let mut e = e;
    e.backtrace_push_location(loc(2));
    assert_eq!(
        error_message(&*e),
        "error2::BoxedError2: boxed\n    at t.rs:1:1\n    at t.rs:2:1"
    );
}

#[test]
fn test_downcast_mut_edits_in_place() {
    let src = foreign(7, "io::Error", "before");
    let mut e = BoxedError2::from_std_with_location(SourceError::Erased(src), loc(1));
    match e.downcast_mut(7) {
        Some(ErrorKind::Std { source, .. }) => source.display = String::from("after"),
        _ => panic!("expected a foreign hit"),
    }
    match e.downcast_ref(7) {
        Some(ErrorKind::Std { source, .. }) => assert_eq!(source.display, "after"),
        _ => panic!("expected a foreign hit"),
    }
    assert!(e.downcast_mut(8).is_none());
}

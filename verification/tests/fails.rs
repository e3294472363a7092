use solrcopy::fails::{raise, throw, BoxedError, BoxedResult, ErrorResult, Failed};

#[test]
fn check_throw() {
    assert_eq!(throw::<usize>("fail".to_string()).is_ok(), false);
    assert_eq!(raise::<usize>("fail").is_ok(), false);
}

#[test]
fn failed_keeps_its_message() {
    let failed = Failed::new("no archive");
    assert_eq!(failed.say(), "no archive");
    assert_eq!(failed.description(), "no archive");
}

#[test]
fn failed_may_be_empty() {
    let failed = Failed::new("");
    assert_eq!(failed.say(), "");
}

#[test]
fn throw_carries_the_message() {
    let thrown: Result<usize, BoxedError> = throw("first line\nsecond line".to_string());
    match thrown {
        Ok(_) => panic!("throw succeeded"),
        Err(failed) => assert_eq!(failed.say(), "first line\nsecond line"),
    }
}

#[test]
fn raise_carries_the_message() {
    let raised: BoxedResult<String> = raise("command must be 'restore' !");
    match raised {
        Ok(_) => panic!("raise succeeded"),
        Err(failed) => assert_eq!(failed.description(), "command must be 'restore' !"),
    }
}

#[test]
fn raise_fails_for_the_unit_result() {
    let raised: ErrorResult = raise("stop");
    assert!(raised.is_err());
}

use fmtstruct::loader::{conclude, finish, missing_extension, read_failure, verdict_of};
use fmtstruct::{FmtError, LoadInfo, LoadResult, PreProcess, ValidateConfig};
use std::io::{Error, ErrorKind};
use validator::{ValidationError, ValidationErrors};

fn info() -> LoadInfo {
    LoadInfo {
        key: "config.json".to_string(),
        format: "json",
        conflicts: vec!["config.toml".to_string()],
    }
}

fn rejected() -> ValidationErrors {
    let mut errors = ValidationErrors::new();
    errors.add("value", ValidationError::new("invalid_value"));
    errors
}

#[test]
fn messages_open_with_the_kind_of_error() {
    assert_eq!(FmtError::NotFound.message(), "not found");
    assert_eq!(FmtError::SandboxViolation.message(), "sandbox violation");
    assert_eq!(
        FmtError::ParseError("expected value at line 1".to_string()).message(),
        "format error: expected value at line 1"
    );
    assert_eq!(FmtError::ParseError(String::new()).message(), "format error: ");
    assert_eq!(FmtError::Custom("out of cheese").message(), "out of cheese");
    assert_eq!(FmtError::Custom("").message(), "");
}

#[test]
fn messages_of_outside_errors_carry_their_own_text() {
    let e = Error::new(ErrorKind::PermissionDenied, "denied by policy");
    assert_eq!(FmtError::Io(e).message(), "source error: denied by policy");
    let errors = rejected();
    let expected = format!("validation error: {}", errors);
    assert_eq!(FmtError::Validation(errors).message(), expected);
    assert!(expected.contains("value"));
}

#[test]
fn an_absent_key_is_not_found_and_no_error() {
    assert!(matches!(read_failure::<u8>(FmtError::NotFound), LoadResult::NotFound));
}

#[test]
fn any_other_read_failure_is_kept_as_it_is() {
    assert!(matches!(
        read_failure::<u8>(FmtError::SandboxViolation),
        LoadResult::Invalid(FmtError::SandboxViolation)
    ));
    assert!(matches!(
        read_failure::<u8>(FmtError::Custom("x")),
        LoadResult::Invalid(FmtError::Custom("x"))
    ));
    match read_failure::<u8>(FmtError::Io(Error::new(ErrorKind::TimedOut, "slow"))) {
        LoadResult::Invalid(FmtError::Io(e)) => assert_eq!(e.kind(), ErrorKind::TimedOut),
        other => panic!("expected Invalid(Io), got {:?}", other),
    }
    match read_failure::<u8>(FmtError::ParseError("p".to_string())) {
        LoadResult::Invalid(FmtError::ParseError(detail)) => assert_eq!(detail, "p"),
        other => panic!("expected Invalid(ParseError), got {:?}", other),
    }
}

#[test]
fn a_path_without_extension_is_a_parse_error() {
    match missing_extension::<u8>() {
        LoadResult::Invalid(FmtError::ParseError(detail)) => {
            assert_eq!(detail, "missing extension")
        }
        other => panic!("expected Invalid(ParseError), got {:?}", other),
    }
}

#[test]
fn an_accepted_value_is_found_with_its_provenance() {
    match conclude(7u8, Ok(()), info()) {
        LoadResult::Found { value, info } => {
            assert_eq!(value, 7);
            assert_eq!(info.key, "config.json");
            assert_eq!(info.format, "json");
            assert_eq!(info.conflicts, vec!["config.toml".to_string()]);
        }
        other => panic!("expected a value, got {:?}", other),
    }
}

#[test]
fn a_rejected_value_is_dropped() {
    match conclude(7u8, Err(FmtError::Validation(rejected())), info()) {
        LoadResult::Invalid(FmtError::Validation(found)) => assert_eq!(found, rejected()),
        other => panic!("expected Invalid(Validation), got {:?}", other),
    }
}

#[derive(Debug, PartialEq)]
struct Level(i32);

impl PreProcess for Level {
    fn pre_process(&mut self) {
        self.0 *= 2;
    }
    fn set_context(&mut self, ctx: &str) {
        self.0 += ctx.len() as i32;
    }
}

impl ValidateConfig for Level {
    fn validate_config(&self) -> Result<(), FmtError> {
        if self.0 < 0 {
            Err(FmtError::Validation(rejected()))
        } else {
            Ok(())
        }
    }
}

#[test]
fn finish_passes_a_parse_failure_through() {
    let parsed: Result<Level, FmtError> = Err(FmtError::ParseError("bad".to_string()));
    match finish(parsed, "k.json", "json", vec![]) {
        LoadResult::Invalid(FmtError::ParseError(detail)) => assert_eq!(detail, "bad"),
        other => panic!("expected Invalid(ParseError), got {:?}", other),
    }
}

#[test]
fn finish_normalises_then_tells_the_key_then_validates() {
    // (3 * 2) + len("k.json") = 12
    match finish(Ok(Level(3)), "k.json", "json", vec!["k.yml".to_string()]) {
        LoadResult::Found { value, info } => {
            assert_eq!(value, Level(12));
            assert_eq!(info.key, "k.json");
            assert_eq!(info.format, "json");
            assert_eq!(info.conflicts, vec!["k.yml".to_string()]);
        }
        other => panic!("expected a value, got {:?}", other),
    }
    // (-4 * 2) + 6 = -2: rejected only after both hooks ran.
    assert!(matches!(
        finish(Ok(Level(-4)), "k.json", "json", vec![]),
        LoadResult::Invalid(FmtError::Validation(_))
    ));
    // (-2 * 2) + 6 = 2: accepted because both hooks ran first.
    assert!(matches!(finish(Ok(Level(-2)), "k.json", "json", vec![]), LoadResult::Found { .. }));
}

#[test]
fn a_dry_run_keeps_the_error_and_drops_the_value() {
    assert!(verdict_of(LoadResult::Found { value: 1u8, info: info() }).is_ok());
    assert!(matches!(verdict_of(LoadResult::<u8>::NotFound), Err(FmtError::NotFound)));
    assert!(matches!(
        verdict_of(LoadResult::<u8>::Invalid(FmtError::SandboxViolation)),
        Err(FmtError::SandboxViolation)
    ));
    match verdict_of(LoadResult::<u8>::Invalid(FmtError::ParseError("p".to_string()))) {
        Err(FmtError::ParseError(detail)) => assert_eq!(detail, "p"),
        other => panic!("expected a parse error, got {:?}", other),
    }
}

#[test]
fn an_io_error_converts_into_the_io_variant() {
    let converted: FmtError = Error::new(ErrorKind::BrokenPipe, "pipe").into();
    match converted {
        FmtError::Io(e) => assert_eq!(e.kind(), ErrorKind::BrokenPipe),
        other => panic!("expected an I/O error, got {:?}", other),
    }
    fn read() -> Result<Vec<u8>, FmtError> {
        Err(Error::new(ErrorKind::UnexpectedEof, "eof"))?
    }
    assert!(matches!(read(), Err(FmtError::Io(_))));
}

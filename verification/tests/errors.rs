use media_index::error::{AppError, ErrorKind};

#[test]
fn new_makes_an_io_error() {
    let e = AppError::new("disk went away");
    assert_eq!(e.kind, ErrorKind::Io);
    assert_eq!(e.message, "disk went away");
}

#[test]
fn with_kind_keeps_kind_and_message() {
    let e = AppError::with_kind(ErrorKind::ToolInvocationFailed, "exit status 1");
    assert_eq!(e.kind, ErrorKind::ToolInvocationFailed);
    assert_eq!(e.message, "exit status 1");
}

use wrapperize::error::{IoError, IoErrorMessage};

#[test]
fn io_error_message_names_path_and_cause() {
    let err = IoError::new("/usr/bin/foo", IoErrorMessage::from("permission denied".to_string()));
    assert_eq!(err.message(), "/usr/bin/foo: permission denied");
}

#[test]
fn io_error_message_from_str_slice() {
    let err = IoError::new("/etc/hooks", IoErrorMessage::from("failed to create directory"));
    assert_eq!(err.message(), "/etc/hooks: failed to create directory");
}

use rust_utils::cli::{Cli, Commands};
use rust_utils::commands::remap::{RemapArgs, RemapCommand};
use rust_utils::error::{prefixed, RustUtilsError};
use std::io;

#[test]
fn test_error_display() {
    let error = RustUtilsError::DirectoryNotFound("/test/path".to_string());
    assert_eq!(error.to_string(), "Directory not found: /test/path");

    let error = RustUtilsError::InvalidRange("test range".to_string());
    assert_eq!(error.to_string(), "Invalid UID/GID range: test range");

    let error = RustUtilsError::RemapFailed("test operation".to_string());
    assert_eq!(error.to_string(), "Remapping failed: test operation");

    let error = RustUtilsError::Permission("test permission".to_string());
    assert_eq!(error.to_string(), "Permission denied: test permission");

    let error = RustUtilsError::InvalidArguments("test args".to_string());
    assert_eq!(error.to_string(), "Invalid arguments: test args");

    let error = RustUtilsError::OperationFailed("test op".to_string());
    assert_eq!(error.to_string(), "Operation failed: test op");
}

#[test]
fn test_error_from_io() {
    let io_error = io::Error::new(io::ErrorKind::NotFound, "file not found");
    let rust_error: RustUtilsError = io_error.into();

    match rust_error {
        RustUtilsError::Io(_) => (),
        _ => panic!("Expected IO error conversion"),
    }
}

#[test]
fn test_result_type() {
    let success: Result<i32, RustUtilsError> = Ok(42);
    assert!(success.is_ok());
    if let Ok(value) = success {
        assert_eq!(value, 42);
    }

    let failure: Result<i32, RustUtilsError> = Err(RustUtilsError::InvalidRange("test".to_string()));
    assert!(failure.is_err());
}

#[test]
fn test_error_debug() {
    let error = RustUtilsError::DirectoryNotFound("/test".to_string());
    let debug_str = format!("{error:?}");
    assert!(debug_str.contains("DirectoryNotFound"));
    assert!(debug_str.contains("/test"));
}

#[test]
fn io_error_message_has_its_prefix() {
    let error = RustUtilsError::from(io::Error::new(io::ErrorKind::NotFound, "file not found"));
    assert_eq!(error.to_string(), "IO error: file not found");
}

#[test]
fn system_error_message_has_its_prefix() {
    let error = RustUtilsError::from(nix::errno::Errno::EPERM);
    assert!(matches!(error, RustUtilsError::System(nix::errno::Errno::EPERM)));
    let text = error.to_string();
    assert!(text.starts_with("System error: "));
    assert!(text.contains("EPERM"));
}

#[test]
fn empty_detail_leaves_the_prefix() {
    assert_eq!(RustUtilsError::RemapFailed(String::new()).to_string(), "Remapping failed: ");
}

#[test]
fn command_line_selects_the_run() {
    let cli = Cli {
        command: Commands::Remap(RemapArgs {
            base_directory: String::from("/test/path"),
            from_base: 100000,
            to_base: 50000000,
            range_size: 32768,
            dry_run: true,
            verbose: true,
            exclude: vec!["*.log".to_string(), "tmp/*".to_string()],
            uid_only: true,
            gid_only: false,
        }),
    };
    let command = match cli.command {
        Commands::Remap(args) => RemapCommand::new(args),
    };
    assert_eq!(command.args().base_directory, "/test/path");
    assert_eq!(command.args().from_base, 100000);
    assert_eq!(command.args().to_base, 50000000);
    assert_eq!(command.args().range_size, 32768);
    assert!(command.args().dry_run);
    assert!(command.args().verbose);
    assert!(command.args().uid_only);
    assert!(!command.args().gid_only);
    assert_eq!(command.args().exclude, vec!["*.log", "tmp/*"]);
    assert!(command.validate_args().is_ok());
}

#[test]
fn message_is_prefix_then_detail() {
    assert_eq!(prefixed("IO error: ", "file not found"), "IO error: file not found");
    assert_eq!(prefixed("", "x"), "x");
    assert_eq!(prefixed("x", ""), "x");
    assert_eq!(prefixed("é: ", "ü"), "é: ü");
}

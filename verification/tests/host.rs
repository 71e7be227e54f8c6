use gestdj_ui::commands::{greet, test_python_connection};
use gestdj_ui::host::{CommandHost, Handler, HostError};

#[test]
fn greet_world() {
    assert_eq!(greet("World"), "Hello, World! You've been greeted from Rust!");
}

#[test]
fn greet_empty_name() {
    assert_eq!(greet(""), "Hello, ! You've been greeted from Rust!");
}

#[test]
fn greet_substitutes_name_exactly() {
    assert_eq!(
        greet("Ada Lovelace"),
        "Hello, Ada Lovelace! You've been greeted from Rust!"
    );
    assert_eq!(
        greet("  spaced  "),
        "Hello,   spaced  ! You've been greeted from Rust!"
    );
}

#[test]
fn greet_is_idempotent() {
    let first = greet("World");
    let second = greet("World");
    assert_eq!(first, second);
}

#[test]
fn python_connection_ack_is_fixed() {
    assert_eq!(
        test_python_connection(),
        "Python connection test from Tauri v2"
    );
    assert_eq!(test_python_connection(), test_python_connection());
}

#[test]
fn builtin_host_registers_both_operations() {
    let host = CommandHost::with_builtin_commands();
    assert!(host.is_registered("greet"));
    assert!(host.is_registered("test_python_connection"));
    assert!(!host.is_registered("Greet"));
}

#[test]
fn dispatch_greet() {
    let host = CommandHost::with_builtin_commands();
    assert_eq!(
        host.dispatch("greet", Some("World")),
        Ok("Hello, World! You've been greeted from Rust!".to_string())
    );
}

#[test]
fn dispatch_python_connection_ignores_argument() {
    let host = CommandHost::with_builtin_commands();
    assert_eq!(
        host.dispatch("test_python_connection", None),
        Ok("Python connection test from Tauri v2".to_string())
    );
    assert_eq!(
        host.dispatch("test_python_connection", Some("ignored")),
        Ok("Python connection test from Tauri v2".to_string())
    );
}

#[test]
fn dispatch_unknown_operation_errors() {
    let host = CommandHost::with_builtin_commands();
    assert_eq!(
        host.dispatch("frobnicate", None),
        Err(HostError::UnknownOperation)
    );
    assert_eq!(host.dispatch("", None), Err(HostError::UnknownOperation));
}

#[test]
fn dispatch_on_empty_host_errors() {
    let host = CommandHost::new();
    assert_eq!(
        host.dispatch("greet", Some("World")),
        Err(HostError::UnknownOperation)
    );
}

#[test]
fn dispatch_greet_without_name_errors() {
    let host = CommandHost::with_builtin_commands();
    assert_eq!(host.dispatch("greet", None), Err(HostError::MissingArgument));
}

#[test]
fn dispatch_is_repeatable() {
    let host = CommandHost::with_builtin_commands();
    let first = host.dispatch("greet", Some("again"));
    let second = host.dispatch("greet", Some("again"));
    assert_eq!(first, second);
}

#[test]
fn register_adds_an_operation() {
    let mut host = CommandHost::new();
    assert!(!host.is_registered("ping"));
    host.register("ping".to_string(), Handler::TestPythonConnection);
    assert!(host.is_registered("ping"));
    assert_eq!(
        host.dispatch("ping", None),
        Ok("Python connection test from Tauri v2".to_string())
    );
}

#[test]
fn register_keeps_earlier_operations() {
    let mut host = CommandHost::with_builtin_commands();
    host.register("ping".to_string(), Handler::Greet);
    assert!(host.is_registered("greet"));
    assert!(host.is_registered("test_python_connection"));
    assert_eq!(
        host.dispatch("ping", Some("World")),
        Ok("Hello, World! You've been greeted from Rust!".to_string())
    );
}

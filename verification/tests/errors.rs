use packet_sniffer::error::AppError;
use packet_sniffer::error::InterfaceError;

#[test]
fn test_interface_not_found_display() {
    let err = AppError::InterfaceNotFound("lo".to_string());

    let output = err.message();

    assert_eq!(output, "interface not found: lo");
}

#[test]
fn test_permission_denied() {
    let err = AppError::PermissionDenied;

    let output = err.message();

    assert!(output.contains("sudo"), "{}", output);
    assert!(output.contains("CAP_NET_RAW"), "{}", output);
}

#[test]
fn test_no_interfaces() {
    let err = AppError::NoInterfaces;

    let output = err.message();

    assert_eq!(output, "no network interfaces found");
}

#[test]
fn interface_error_wraps_its_cause() {
    let err = InterfaceError::Io("mock failure".to_string());

    assert_eq!(err.message(), "interface error: mock failure");

    let wrapped = AppError::Interface(InterfaceError::Io("mock failure".to_string()));
    assert_eq!(wrapped.message(), "interface error: mock failure");
}

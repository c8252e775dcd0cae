use packet_sniffer::args::Args;
use packet_sniffer::error::AppError;
use packet_sniffer::validate_interface;

#[test]
fn valid_interface_returns_ok() {
    let interfaces = vec!["eth0".to_string(), "lo".to_string()];
    assert!(validate_interface(&interfaces, Some("eth0")).is_ok());
}

#[test]
fn main_unknown_interface_returns_not_found() {
    let interfaces = vec!["eth0".to_string(), "lo".to_string()];
    let result = validate_interface(&interfaces, Some("fake0"));
    assert!(matches!(result, Err(AppError::InterfaceNotFound(ref n)) if n == "fake0"));
}

#[test]
fn empty_list_returns_no_interfaces() {
    let result = validate_interface(&[], None);
    assert!(matches!(result, Err(AppError::NoInterfaces)));
}

#[test]
fn no_explicit_name_needs_only_a_nonempty_list() {
    let interfaces = vec!["eth0".to_string()];
    assert!(validate_interface(&interfaces, None).is_ok());
}

#[test]
fn args_carry_the_optional_interface() {
    let args = Args { interface: Some("eth0".to_string()) };
    let interfaces = vec!["eth0".to_string(), "lo".to_string()];
    assert!(validate_interface(&interfaces, args.interface.as_deref()).is_ok());

    let bare = Args { interface: None };
    assert!(bare.interface.is_none());
}

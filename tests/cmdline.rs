use oxygen::cmdline::validate_oxygen_file;
use std::path::PathBuf;

#[test]
fn should_validate_oxygen_file() {
    assert!(validate_oxygen_file("some.o2").is_ok())
}

#[test]
fn should_err_validate_oxygen_file() {
    assert!(validate_oxygen_file("some").is_err())
}

#[test]
fn validated_file_keeps_its_path() {
    assert_eq!(validate_oxygen_file("dir/some.o2").unwrap(), PathBuf::from("dir/some.o2"));
}

#[test]
fn bare_extension_is_a_file_name() {
    assert!(validate_oxygen_file(".o2").is_ok());
}

#[test]
fn rejects_other_extensions_with_message() {
    assert_eq!(validate_oxygen_file("some.o2x").unwrap_err(), "must end with '.o2'");
    assert_eq!(validate_oxygen_file("o2").unwrap_err(), "must end with '.o2'");
    assert!(validate_oxygen_file("").is_err());
}

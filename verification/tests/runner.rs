use rsground::communication::{ActError, RunnerRequestOp};
use rsground::runner::{act_error, act_write, bash_command_line, lower_hash, cargo_manifest, random_hash, runner_hash, RunnerUpdateError};

#[test]
fn runner_hashes_are_lower_alphanumeric() {
    let h = runner_hash();
    assert_eq!(h.len(), 30);
    assert!(h.chars().all(|c| c.is_ascii_digit() || c.is_ascii_lowercase()));
    let r = random_hash(16);
    assert_eq!(r.len(), 16);
    assert!(r.chars().all(|c| c.is_ascii_alphanumeric()));
}

#[test]
fn update_errors_are_reported() {
    let io = || RunnerUpdateError::UpdateFile(std::io::Error::new(std::io::ErrorKind::Other, "x"));
    assert_eq!(act_error(&RunnerRequestOp::UploadCode, &io()), ActError::InternalServerError);
    assert_eq!(act_error(&RunnerRequestOp::UpdateCargo, &io()), ActError::InternalServerError);
    assert_eq!(act_error(&RunnerRequestOp::UpdateCargo, &RunnerUpdateError::InvalidPackageString), ActError::InvalidToml);
}

#[test]
fn manifest_has_package_header() {
    let m = cargo_manifest("abc", "serde = \"1\"\n");
    assert!(m.starts_with("\n                [package]\n                name = \"runner_abc\"\n"));
    assert!(m.ends_with("edition = \"2021\"\n\n            serde = \"1\"\n"));
}

#[test]
fn runner_requests_write_their_file() {
    let code = Some("fn main() {}".to_owned());
    assert_eq!(
        act_write(&RunnerRequestOp::UploadCode, &code, "h", false),
        Ok(("src/main.rs".to_owned(), "fn main() {}".to_owned()))
    );
    assert_eq!(act_write(&RunnerRequestOp::UploadCode, &None, "h", true), Err(ActError::MissingContent));
    assert_eq!(act_write(&RunnerRequestOp::RunCode, &None, "h", true), Err(ActError::MissingContent));
    assert_eq!(act_write(&RunnerRequestOp::UpdateCargo, &None, "h", false), Err(ActError::MissingContent));
    let deps = Some("rand = \"0.8\"".to_owned());
    assert_eq!(act_write(&RunnerRequestOp::UpdateCargo, &deps, "h", false), Err(ActError::InvalidToml));
    let (path, text) = act_write(&RunnerRequestOp::UpdateCargo, &deps, "h", true).expect("valid");
    assert_eq!(path, "Cargo.toml");
    assert!(text.contains("name = \"runner_h\""));
    assert!(text.ends_with("\n\n            rand = \"0.8\""));
}

#[test]
fn bash_lines_quote_each_argument() {
    assert_eq!(bash_command_line("cargo", vec!["build", "--color", "always"]), "cargo \"build\" \"--color\" \"always\"");
    assert_eq!(bash_command_line("echo", vec!["a\"b", "c\\d"]), "echo \"a\\\"b\" \"c\\\\d\"");
    assert_eq!(bash_command_line("ls", vec![]), "ls ");
}

#[test]
fn hashes_are_lowered_byte_by_byte() {
    assert_eq!(lower_hash(&b"AbZ09yQ".to_vec()), "abz09yq");
    assert_eq!(lower_hash(&vec![]), "");
}


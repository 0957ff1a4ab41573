use rsground::docker::{
    container_name, init_project_command, read_file_command, run_code_command, write_file_command,
    CCmdOutputString, ContainerCommandOutput, ContainerRetrivalError, DockerCommand,
};

#[test]
fn commands_accumulate() {
    let c = DockerCommand::new().cmd(vec!["ls", "-l"]).cmd(vec!["pwd"]);
    assert_eq!(c.commands(), &vec![vec!["ls".to_owned(), "-l".to_owned()], vec!["pwd".to_owned()]]);
    assert!(DockerCommand::default().commands().is_empty());
}

#[test]
fn file_commands() {
    assert_eq!(read_file_command("/host/src/main.rs").commands(), &vec![vec!["cat".to_owned(), "/host/src/main.rs".to_owned()]]);
    assert_eq!(
        write_file_command("/f", "say \"hi\"").commands(),
        &vec![vec!["bash".to_owned(), "-c".to_owned(), "echo \"say \\\"hi\\\"\" > /f".to_owned()]]
    );
    assert_eq!(
        run_code_command().commands()[0],
        vec!["cargo", "run", "--manifest-path", "/host/Cargo.toml"]
    );
    assert_eq!(init_project_command().commands()[0], vec!["cargo", "init", "host", "--vcs", "none"]);
    assert_eq!(container_name("abc"), "runner_abc");
}

#[test]
fn output_is_joined_as_text() {
    let out = vec![
        ContainerCommandOutput::StdOut(b"hel".to_vec()),
        ContainerCommandOutput::StdErr(b"lo".to_vec()),
    ];
    assert_eq!(CCmdOutputString::to_string(&out), Some("hello".to_owned()));
    let bad = vec![ContainerCommandOutput::StdOut(vec![0xff])];
    assert_eq!(CCmdOutputString::to_string(&bad), None);
    let split_char = vec![
        ContainerCommandOutput::StdOut(vec![0xc3]),
        ContainerCommandOutput::StdOut(vec![0xb1]),
    ];
    assert_eq!(CCmdOutputString::to_string(&split_char), Some("ñ".to_owned()));
}

#[test]
fn container_error_status() {
    assert_eq!(ContainerRetrivalError::Error.status_code(), 500);
    assert_eq!(ContainerRetrivalError::NotFound.status_code(), 404);
}

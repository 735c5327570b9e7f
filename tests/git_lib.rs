use git_lib::{Credentials, Error, GitCommand, GitLib, Invocation, ProcessOutput};

fn succeeded(stdout: &str) -> ProcessOutput {
    ProcessOutput {
        success: true,
        stdout: stdout.as_bytes().to_vec(),
        stderr: Vec::new(),
    }
}

fn failed(stderr: &str) -> ProcessOutput {
    ProcessOutput {
        success: false,
        stdout: Vec::new(),
        stderr: stderr.as_bytes().to_vec(),
    }
}

fn input_of(invocation: &Invocation) -> String {
    invocation.input.clone().expect("no input")
}

#[test]
fn credential() {
    let url = "http://example.com";
    let username = "baravelli";
    let password = "swordfish";

    // The helper prompts and the user enters the values above.
    let fill = GitLib::credentials_fill_invocation(url);
    assert_eq!(fill.args, vec!["credential", "fill"]);
    assert_eq!(input_of(&fill), "url=http://example.com\n\n");
    let prompted = succeeded(
        "protocol=http\nhost=example.com\nusername=baravelli\npassword=swordfish\n",
    );
    let credentials =
        GitLib::credentials_fill(&prompted).expect("Failed to fill credentials (prompt)");

    // Store the credentials in the credential manager.
    let approve = GitLib::credentials_approve_invocation(&credentials);
    assert_eq!(approve.args, vec!["credential", "approve"]);
    assert_eq!(
        input_of(&approve),
        "protocol=http\nhost=example.com\nusername=baravelli\npassword=swordfish\n\n"
    );
    GitLib::credentials_approve(&succeeded("")).expect("Failed to approve credentials");

    // The second fill comes from the credential manager.
    let credentials_fill = GitLib::credentials_fill(&prompted)
        .expect("Failed to fill credentials (approved)");
    assert_eq!(
        credentials_fill.username().as_ref(),
        Some(&username.to_string())
    );
    assert_eq!(
        credentials_fill.password().as_ref(),
        Some(&password.to_string())
    );

    // Remove the credentials from the credential manager.
    let reject = GitLib::credentials_reject_invocation(&credentials_fill);
    assert_eq!(reject.args, vec!["credential", "reject"]);
    GitLib::credentials_reject(&succeeded("")).expect("Failed to reject credentials");

    // The user cancels the prompt: the helper answers with empty values.
    let cancelled = succeeded("protocol=http\nhost=example.com\nusername=\npassword=\n");
    let credentials_fill =
        GitLib::credentials_fill(&cancelled).expect("Failed to fill credentials (rejected)");
    assert_eq!(credentials_fill.username().as_ref(), Some(&"".to_string()));
    assert_eq!(credentials_fill.password().as_ref(), Some(&"".to_string()));
}

#[test]
fn is_in_work_tree() {
    let invocation = GitLib::is_inside_work_tree_invocation(None);
    assert_eq!(invocation.program, "git");
    assert_eq!(invocation.args, vec!["rev-parse", "--is-inside-work-tree"]);
    assert_eq!(invocation.current_dir, None);
    assert!(GitLib::is_inside_work_tree(&succeeded("true\n")).expect("Not inside work tree"));
}

#[test]
fn remote_url() {
    const REMOTE_NAME: &str = "origin";
    const TEST_PATH: &str = "C:\\Users\\psobo\\Development\\rust\\ckpath";
    const REMOTE_URL: &str = "http://marconi/gitea/psobolik/ckpath-rust.git";

    let invocation = GitLib::remote_url_invocation(REMOTE_NAME, Some(TEST_PATH));
    assert_eq!(invocation.args, vec!["remote", "get-url", "origin"]);
    assert_eq!(invocation.current_dir.as_deref(), Some(TEST_PATH));
    assert_eq!(invocation.input, None);
    let output = succeeded("http://marconi/gitea/psobolik/ckpath-rust.git\n");
    let remote_url = GitLib::remote_url(&output).expect("Error getting remove URL");
    assert_eq!(remote_url, REMOTE_URL);
}

#[test]
fn failed_run_reports_stderr_verbatim() {
    let output = failed("fatal: not a git repository (or any of the parent directories): .git\n");
    let error = GitCommand::git_command(&output).err().expect("a failed run is an error");
    assert_eq!(
        error.message(),
        "fatal: not a git repository (or any of the parent directories): .git\n"
    );
    let error = GitLib::remote_url(&output).err().expect("a failed run is an error");
    assert_eq!(
        error.message(),
        "fatal: not a git repository (or any of the parent directories): .git\n"
    );
}

#[test]
fn failed_run_with_text_on_stdout_is_still_an_error() {
    let output = ProcessOutput {
        success: false,
        stdout: b"true\n".to_vec(),
        stderr: b"boom".to_vec(),
    };
    assert_eq!(GitLib::is_inside_work_tree(&output).err().unwrap().message(), "boom");
    assert_eq!(GitLib::remote_add(&output).err().unwrap().message(), "boom");
    assert_eq!(GitLib::credentials_approve(&output).err().unwrap().message(), "boom");
    assert_eq!(GitLib::credentials_reject(&output).err().unwrap().message(), "boom");
    assert_eq!(GitLib::top_level(&output).err().unwrap().message(), "boom");
    assert_eq!(GitLib::credentials_fill(&output).err().unwrap().message(), "boom");
}

#[test]
fn invalid_utf8_stdout_is_an_error() {
    let output = ProcessOutput {
        success: true,
        stdout: vec![0x66, 0xff, 0x6f],
        stderr: Vec::new(),
    };
    let error = GitCommand::git_command(&output).err().expect("invalid UTF-8 is an error");
    assert!(!error.message().is_empty());
}

#[test]
fn invalid_utf8_stderr_is_a_distinct_error() {
    let output = ProcessOutput {
        success: false,
        stdout: Vec::new(),
        stderr: vec![0xc3, 0x28],
    };
    let error = GitCommand::git_command(&output).err().expect("a failed run is an error");
    assert!(!error.message().is_empty());
    assert_ne!(error.message().as_bytes(), &[0xc3u8, 0x28][..]);
}

#[test]
fn successful_run_decodes_stdout() {
    let output = ProcessOutput {
        success: true,
        stdout: "h\u{e9}llo\n".as_bytes().to_vec(),
        stderr: b"ignored".to_vec(),
    };
    assert_eq!(GitCommand::git_command(&output).ok(), Some("h\u{e9}llo\n".to_string()));
}

#[test]
fn top_level_trims_one_trailing_newline() {
    let invocation = GitLib::top_level_invocation(Some("/some/path/src"));
    assert_eq!(invocation.args, vec!["rev-parse", "--show-toplevel"]);
    assert_eq!(invocation.current_dir.as_deref(), Some("/some/path/src"));
    assert_eq!(GitLib::top_level(&succeeded("/some/path\n")).ok(), Some("/some/path".to_string()));
    assert_eq!(GitLib::top_level(&succeeded("/some/path")).ok(), Some("/some/path".to_string()));
    assert_eq!(
        GitLib::top_level(&succeeded("/some/path\n\n")).ok(),
        Some("/some/path\n".to_string())
    );
    assert_eq!(GitLib::top_level(&succeeded("")).ok(), Some(String::new()));
}

#[test]
fn remote_add_builds_its_run() {
    let invocation = GitLib::remote_add_invocation("origin", "http://host/repo.git", Some("/work"));
    assert_eq!(invocation.program, "git");
    assert_eq!(invocation.args, vec!["remote", "add", "origin", "http://host/repo.git"]);
    assert_eq!(invocation.current_dir.as_deref(), Some("/work"));
    assert_eq!(invocation.input, None);
    assert!(GitLib::remote_add(&succeeded("")).is_ok());
}

#[test]
fn payload_is_serialized_record_and_newline() {
    let credentials = Credentials::with_url_username_password("https://h/x", "me", "pw=1");
    let invocation = GitLib::credentials_approve_invocation(&credentials);
    assert_eq!(
        input_of(&invocation),
        format!("{}\n", credentials.to_string())
    );
    assert_eq!(input_of(&invocation), "username=me\npassword=pw=1\nurl=https://h/x\n\n");
    assert_eq!(invocation.input.as_ref().unwrap().as_bytes(), b"username=me\npassword=pw=1\nurl=https://h/x\n\n");
}

#[test]
fn git_args_puts_subcommand_first() {
    assert_eq!(GitCommand::git_args("status", None), vec!["status"]);
    assert_eq!(
        GitCommand::git_args("remote", Some(vec!["get-url", "origin"])),
        vec!["remote", "get-url", "origin"]
    );
    assert_eq!(GitCommand::git_args("log", Some(vec![])), vec!["log"]);
}

#[test]
fn invocation_without_payload_has_no_input() {
    let invocation = GitCommand::invocation("status", Some(vec!["--short"]), None, None);
    assert_eq!(invocation.program, "git");
    assert_eq!(invocation.args, vec!["status", "--short"]);
    assert_eq!(invocation.input, None);
    assert_eq!(invocation.current_dir, None);
    let invocation = GitCommand::invocation("x", None, Some("a=b".to_string()), Some("/d"));
    assert_eq!(invocation.input.as_deref(), Some("a=b\n"));
    assert_eq!(GitCommand::stdin_text(""), "\n");
}

#[test]
fn error_keeps_its_message() {
    let error = Error::new("something broke".to_string());
    assert_eq!(error.message(), "something broke");
}

use poly::exec::{run, to_args, Error, Output};

fn output(success: bool, code: Option<i32>, stdout: &[u8], stderr: &[u8]) -> Output {
    Output { success, code, stdout: stdout.to_vec(), stderr: stderr.to_vec() }
}

#[test]
fn arguments_become_owned_strings() {
    assert_eq!(
        to_args(&["build", "--color", "always"]),
        vec!["build".to_string(), "--color".to_string(), "always".to_string()]
    );
    assert_eq!(to_args(&[]), Vec::<String>::new());
}

#[test]
fn launch_failure_is_an_error() {
    assert_eq!(
        run(Err("no such file".to_string())),
        Err(Error::FailedToExecute("no such file".to_string()))
    );
    let out = output(true, Some(0), b"ok", b"");
    assert_eq!(run(Ok(out.clone())), Ok(out));
}

#[test]
fn successful_command_gives_its_output() {
    assert_eq!(output(true, Some(0), "héllo\n".as_bytes(), b"warn").into_stdout(), Ok("héllo\n".to_string()));
    assert_eq!(output(true, Some(0), b"", b"").into_stdout(), Ok(String::new()));
}

#[test]
fn failed_command_gives_its_error_output_and_code() {
    assert_eq!(
        output(false, Some(101), b"out", b"boom").into_stdout(),
        Err(Error::ExitFailure("boom".to_string(), Some(101)))
    );
    assert_eq!(
        output(false, None, b"out", b"killed").into_stdout(),
        Err(Error::ExitFailure("killed".to_string(), None))
    );
}

#[test]
fn output_that_is_no_text_is_an_error() {
    assert!(matches!(
        output(true, Some(0), &[0xff, 0xfe], b"").into_stdout(),
        Err(Error::FailedToReadStdout(_))
    ));
    assert!(matches!(
        output(false, Some(1), b"", &[0xc3]).into_stdout(),
        Err(Error::FailedToReadStderr(_))
    ));
    assert_eq!(
        output(false, Some(1), &[0xff], b"fine").into_stdout(),
        Err(Error::ExitFailure("fine".to_string(), Some(1)))
    );
}

#[test]
fn errors_have_a_text() {
    assert_eq!(Error::FailedToExecute("x".to_string()).to_string(), "failed to execute: x");
    assert_eq!(
        Error::ExitFailure("boom".to_string(), Some(1)).to_string(),
        "exited with failure: boom"
    );
}

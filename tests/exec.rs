use flota::exec::{Exec, ExecResult, ExecType, Output};

fn out(stdout: Option<&str>, stderr: Option<&str>, status: Option<i32>) -> Output {
    Output {
        stdout: stdout.map(|s| s.to_string()),
        stderr: stderr.map(|s| s.to_string()),
        status,
    }
}

#[test]
fn unset_expectations_are_wildcards() {
    let expected = out(None, None, Some(0));
    assert!(out(Some("anything"), Some("noise"), Some(0)).satisfy(&expected));
    assert!(out(None, None, Some(0)).satisfy(&expected));
    assert!(!out(Some("anything"), None, Some(1)).satisfy(&expected));
    assert!(!out(Some("anything"), None, None).satisfy(&expected));
}

#[test]
fn text_must_match_exactly() {
    let expected = out(Some("ok"), None, None);
    assert!(!out(Some("ok\n"), None, Some(0)).satisfy(&expected));
    assert!(out(Some("ok"), Some("warn"), Some(3)).satisfy(&expected));
    assert!(!out(None, None, Some(0)).satisfy(&expected));
    let err = out(None, Some("e"), None);
    assert!(!out(None, Some("E"), None).satisfy(&err));
    assert!(out(None, Some("e"), None).satisfy(&err));
}

#[test]
fn record_derives_passed() {
    let exec = Exec {
        exec_type: ExecType::Ssh,
        host: Some("web".to_string()),
        command: "uname".to_string(),
        expect_stdout: Some("Linux".to_string()),
        expect_stderr: None,
        expect_status: Some(0),
        abort_on_failure: false,
    };
    let r = ExecResult::record(&exec, "web".to_string(), out(Some("Linux"), Some(""), Some(0)));
    assert!(r.passed);
    assert_eq!(r.command, "uname");
    assert_eq!(r.host, "web");
    assert_eq!(r.expected.stdout.as_deref(), Some("Linux"));
    let bad = ExecResult::record(&exec, "web".to_string(), out(Some("Linux"), None, Some(2)));
    assert!(!bad.passed);
    assert_eq!(bad.result.status, Some(2));
}

#[test]
fn describe_output() {
    let o = out(Some("hello"), None, Some(-3));
    assert_eq!(o.describe(), "stdout: hello\nstderr: N/A\nstatus: -3");
    let p = out(None, Some(""), Some(127));
    assert_eq!(p.describe(), "stdout: N/A\nstderr: \nstatus: 127");
    let q = out(None, None, None);
    assert_eq!(q.describe(), "stdout: N/A\nstderr: N/A\nstatus: N/A");
    let r = out(None, None, Some(i32::MIN));
    assert_eq!(r.describe(), "stdout: N/A\nstderr: N/A\nstatus: -2147483648");
}

use my_ssh::commands::executable_files::ExecOutcome;
use my_ssh::fs_model::{FsKind, FsModel, FsNode};
use my_ssh::handler::{resume_pipeline, CommandHandler, HandlerStep};
use my_ssh::path::SandboxPath;

fn sp(parts: &[&str]) -> SandboxPath {
    SandboxPath { parts: parts.iter().map(|s| s.to_string()).collect() }
}

fn node(path: &[&str], content: &str, executable: bool) -> FsNode {
    FsNode {
        path: sp(path),
        kind: FsKind::File { content: content.to_string(), executable },
    }
}

#[test]
fn missing_executable_is_refused() {
    let mut fs = FsModel { nodes: Vec::new() };
    let mut handler = CommandHandler::new("./tool", sp(&[]), Vec::new());
    match handler.get_output(&mut fs) {
        HandlerStep::Done { reply, .. } => {
            assert!(reply.contains("?&E ./tool: No such file or directory\n\n"));
        },
        _ => panic!("should not run"),
    }
}

#[test]
fn non_executable_file_is_refused() {
    let mut fs = FsModel { nodes: vec![node(&["tool"], "", false)] };
    let mut handler = CommandHandler::new("./tool", sp(&[]), Vec::new());
    match handler.get_output(&mut fs) {
        HandlerStep::Done { reply, .. } => {
            assert!(reply.contains(
                "?&E ./tool: cannot execute binary file: Exec format error\n\n"
            ));
        },
        _ => panic!("should not run"),
    }
}

#[test]
fn directory_is_refused() {
    let mut fs = FsModel { nodes: vec![FsNode { path: sp(&["tool"]), kind: FsKind::Dir }] };
    let mut handler = CommandHandler::new("./tool", sp(&[]), Vec::new());
    match handler.get_output(&mut fs) {
        HandlerStep::Done { reply, .. } => {
            assert!(reply.contains("?&E ./tool: Is a directory\n\n"));
        },
        _ => panic!("should not run"),
    }
}

#[test]
fn executable_suspends_and_resumes_with_stdout() {
    let mut fs = FsModel { nodes: vec![node(&["tool"], "#!/bin/sh", true)] };
    let mut handler = CommandHandler::new("./tool one two", sp(&[]), Vec::new());
    match handler.get_output(&mut fs) {
        HandlerStep::Exec { program, args, pending } => {
            assert_eq!(program.parts, vec!["tool"]);
            assert_eq!(args, vec!["one", "two"]);
            let outcome = Some(ExecOutcome {
                stdout: "it ran".to_string(),
                stderr: String::new(),
            });
            match resume_pipeline(pending, outcome, &mut fs) {
                HandlerStep::Done { reply, .. } => {
                    assert_eq!(reply, " ?&Nit ran\n\n[-]:[-]\r\n\r\n");
                },
                _ => panic!("should finish"),
            }
        },
        _ => panic!("should suspend"),
    }
}

#[test]
fn empty_stdout_reports_stderr_and_fails() {
    let mut fs = FsModel { nodes: vec![node(&["tool"], "", true)] };
    let mut handler = CommandHandler::new("./tool && echo after", sp(&[]), Vec::new());
    match handler.get_output(&mut fs) {
        HandlerStep::Exec { pending, .. } => {
            let outcome = Some(ExecOutcome {
                stdout: String::new(),
                stderr: "boom".to_string(),
            });
            match resume_pipeline(pending, outcome, &mut fs) {
                HandlerStep::Done { reply, .. } => {
                    // The failed run short-circuits the `&&`.
                    assert!(reply.contains("?&Nboom\n\n"));
                    assert!(!reply.contains(" after"));
                },
                _ => panic!("should finish"),
            }
        },
        _ => panic!("should suspend"),
    }
}

#[test]
fn spawn_failure_is_an_error_section() {
    let mut fs = FsModel { nodes: vec![node(&["tool"], "", true)] };
    let mut handler = CommandHandler::new("./tool", sp(&[]), Vec::new());
    match handler.get_output(&mut fs) {
        HandlerStep::Exec { pending, .. } => {
            match resume_pipeline(pending, None, &mut fs) {
                HandlerStep::Done { reply, .. } => {
                    assert!(reply.contains("?&EUnexpected error\n\n"));
                },
                _ => panic!("should finish"),
            }
        },
        _ => panic!("should suspend"),
    }
}

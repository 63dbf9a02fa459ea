use my_ssh::fs_model::{FsKind, FsModel, FsNode};
use my_ssh::handler::{CommandHandler, HandlerStep};
use my_ssh::path::SandboxPath;

fn sp(parts: &[&str]) -> SandboxPath {
    SandboxPath { parts: parts.iter().map(|s| s.to_string()).collect() }
}

fn dir_node(path: &[&str]) -> FsNode {
    FsNode { path: sp(path), kind: FsKind::Dir }
}

fn file_node(path: &[&str], content: &str) -> FsNode {
    FsNode { path: sp(path), kind: FsKind::File { content: content.to_string(), executable: false } }
}

fn exec_node(path: &[&str], content: &str) -> FsNode {
    FsNode { path: sp(path), kind: FsKind::File { content: content.to_string(), executable: true } }
}

fn run(line: &str, cwd: SandboxPath, fs: &mut FsModel) -> (String, SandboxPath) {
    let mut handler = CommandHandler::new(line, cwd, Vec::new());
    match handler.get_output(fs) {
        HandlerStep::Done { reply, dir } => (reply, dir),
        HandlerStep::Exec { .. } => panic!("unexpected executable step"),
    }
}

#[test]
fn empty_input_is_a_no_op() {
    let mut fs = FsModel { nodes: vec![dir_node(&["sub"])] };
    let (reply, dir) = run("", sp(&["sub"]), &mut fs);
    assert_eq!(reply, "[-]:sub[-]\r\n\r\n");
    assert_eq!(dir.parts, vec!["sub"]);
}

#[test]
fn blank_input_is_a_no_op() {
    let mut fs = FsModel { nodes: Vec::new() };
    let (reply, _) = run("   \n", sp(&[]), &mut fs);
    assert_eq!(reply, "[-]:[-]\r\n\r\n");
}

#[test]
fn cd_without_argument_resets_to_root() {
    let mut fs = FsModel { nodes: vec![dir_node(&["a"]), dir_node(&["a", "b"])] };
    let (reply, dir) = run("cd\n", sp(&["a", "b"]), &mut fs);
    assert_eq!(reply, " [-]:[-]\r\n\r\n");
    assert!(dir.parts.is_empty());
}

#[test]
fn cd_enters_existing_directory() {
    let mut fs = FsModel { nodes: vec![dir_node(&["docs"])] };
    let (reply, dir) = run("cd docs", sp(&[]), &mut fs);
    assert_eq!(reply, " [-]:docs[-]\r\n\r\n");
    assert_eq!(dir.parts, vec!["docs"]);
}

#[test]
fn cd_missing_target_reports_error() {
    let mut fs = FsModel { nodes: Vec::new() };
    let (reply, dir) = run("cd nope", sp(&[]), &mut fs);
    assert_eq!(reply, " ?&Ecd: No such file or directory\n\n[-]:[-]\r\n\r\n");
    assert!(dir.parts.is_empty());
}

#[test]
fn cd_file_target_reports_error() {
    let mut fs = FsModel { nodes: vec![file_node(&["f"], "x")] };
    let (reply, _) = run("cd f", sp(&[]), &mut fs);
    assert_eq!(reply, " ?&Ecd: Not a directory\n\n[-]:[-]\r\n\r\n");
}

#[test]
fn cd_above_the_root_stays_inside() {
    // The directory after every reply lies within the sandbox root.
    let mut fs = FsModel { nodes: vec![dir_node(&["sub"])] };
    let (reply, dir) = run("cd ..", sp(&["sub"]), &mut fs);
    assert_eq!(reply, " [-]:[-]\r\n\r\n");
    assert!(dir.parts.is_empty());
    let (_, dir2) = run("cd ../../..", sp(&["sub"]), &mut fs);
    assert!(dir2.parts.is_empty());
}

#[test]
fn pwd_names_the_relative_path() {
    let mut fs = FsModel { nodes: vec![dir_node(&["a"]), dir_node(&["a", "b"])] };
    let (reply, _) = run("pwd", sp(&["a", "b"]), &mut fs);
    assert_eq!(reply, " ?&Nhome:/a/b\n\n[-]:a/b[-]\r\n\r\n");
}

#[test]
fn ls_colors_directories_and_executables() {
    let mut fs = FsModel {
        nodes: vec![
            dir_node(&["docs"]),
            exec_node(&["run.sh"], "#!/bin/sh\n"),
            file_node(&["a.txt"], "text"),
        ],
    };
    let (reply, _) = run("ls\n", sp(&[]), &mut fs);
    assert!(reply.contains("?&L\n\n^!docs\n\n^#run.sh\n\na.txt\n\n"));
}

#[test]
fn ls_outside_the_sandbox_is_filtered() {
    let mut fs = FsModel { nodes: vec![dir_node(&["sub"]), file_node(&["sub", "x"], "")] };
    let (reply, _) = run("ls ..", sp(&["sub"]), &mut fs);
    assert_eq!(reply, " [-]:sub[-]\r\n\r\n");
    let (reply2, _) = run("ls /etc", sp(&["sub"]), &mut fs);
    assert_eq!(reply2, " [-]:sub[-]\r\n\r\n");
}

#[test]
fn ls_missing_target_reports_error_section() {
    let mut fs = FsModel { nodes: vec![dir_node(&["sub"])] };
    let (reply, _) = run("ls sub nope", sp(&[]), &mut fs);
    assert!(reply.contains("?&Els: cannot access 'nope': No such file or directory\n\n\n"));
    assert!(reply.contains("?&L\n\n"));
}

#[test]
fn echo_prefixes_arguments_with_spaces() {
    let mut fs = FsModel { nodes: Vec::new() };
    let (reply, _) = run("echo hello world", sp(&[]), &mut fs);
    assert_eq!(reply, " ?&N hello world\n\n[-]:[-]\r\n\r\n");
}

#[test]
fn cat_reads_files_and_reports_missing_ones() {
    let mut fs = FsModel { nodes: vec![file_node(&["a"], "one"), file_node(&["b"], "two")] };
    let (reply, _) = run("cat a b", sp(&[]), &mut fs);
    assert_eq!(reply, " ?&None\ntwo\n\n[-]:[-]\r\n\r\n");
    let (reply2, _) = run("cat nope", sp(&[]), &mut fs);
    assert_eq!(reply2, " ?&Ncat: nope: No such file or directory\n\n[-]:[-]\r\n\r\n");
}

#[test]
fn redirection_writes_the_stripped_output() {
    let mut fs = FsModel { nodes: Vec::new() };
    let (reply, _) = run("echo hello > out.txt", sp(&[]), &mut fs);
    assert_eq!(reply, " [-]:[-]\r\n\r\n");
    let (reply2, _) = run("cat out.txt\n", sp(&[]), &mut fs);
    assert_eq!(reply2, " ?&N hello\n\n[-]:[-]\r\n\r\n");
}

#[test]
fn redirect_then_cat_in_one_line() {
    let mut fs = FsModel { nodes: Vec::new() };
    let (reply, _) = run("echo foo > f ; cat f", sp(&[]), &mut fs);
    assert!(reply.contains(" foo"));
    assert!(reply.contains("?&N foo\n\n"));
}

#[test]
fn and_runs_the_next_command_on_success() {
    let mut fs = FsModel { nodes: Vec::new() };
    let (reply, _) = run("mkdir a && echo ok", sp(&[]), &mut fs);
    assert!(reply.contains("?&N ok\n\n"));
    assert_eq!(fs.nodes.len(), 1);
}

#[test]
fn cd_error_short_circuits_an_and() {
    let mut fs = FsModel { nodes: Vec::new() };
    let (reply, _) = run("cd nope && echo x", sp(&[]), &mut fs);
    assert!(reply.contains("?&Ecd: No such file or directory\n\n"));
    assert!(!reply.contains("?&N x"));
}

#[test]
fn grep_error_short_circuits_an_and() {
    let mut fs = FsModel { nodes: Vec::new() };
    let (reply, _) = run("grep x nope && echo y", sp(&[]), &mut fs);
    assert!(reply.contains("?&Egrep: No such file or directory\n\n"));
    assert!(!reply.contains("?&N y"));
}

#[test]
fn named_listing_colors_executables() {
    let mut fs = FsModel {
        nodes: vec![
            dir_node(&["sub"]),
            exec_node(&["sub", "run.sh"], "#!/bin/sh\n"),
            file_node(&["sub", "a.txt"], "text"),
        ],
    };
    let (reply, _) = run("ls sub", sp(&[]), &mut fs);
    assert!(reply.contains("?&L\n\n^#run.sh\n\na.txt\n\n"));
}

#[test]
fn surrounding_whitespace_is_trimmed() {
    let mut fs = FsModel { nodes: Vec::new() };
    let (reply, _) = run("pwd\r\n", sp(&[]), &mut fs);
    assert_eq!(reply, " ?&Nhome:/\n\n[-]:[-]\r\n\r\n");
    let (reply2, _) = run("  pwd  ", sp(&[]), &mut fs);
    assert_eq!(reply2, " ?&Nhome:/\n\n[-]:[-]\r\n\r\n");
    let (reply3, _) = run("\r", sp(&[]), &mut fs);
    assert_eq!(reply3, "[-]:[-]\r\n\r\n");
}

#[test]
fn input_redirect_on_an_empty_command_aborts() {
    let mut fs = FsModel { nodes: vec![file_node(&["f"], "text")] };
    let (reply, _) = run("< f", sp(&[]), &mut fs);
    assert_eq!(reply, "[-]:[-]\r\n\r\n");
}

#[test]
fn and_skips_the_next_command_on_failure() {
    let mut fs = FsModel { nodes: Vec::new() };
    let (reply, _) = run("rmdir nonexistent && echo after", sp(&[]), &mut fs);
    assert!(reply.contains(
        "?&Ermdir: failed to remove 'nonexistent': No such file or directory\n\n"
    ));
    assert!(!reply.contains(" after"));
}

#[test]
fn or_skips_the_next_command_on_success() {
    let mut fs = FsModel { nodes: Vec::new() };
    let (reply, _) = run("echo ok || echo two", sp(&[]), &mut fs);
    assert!(reply.contains("?&N ok\n\n"));
    assert!(!reply.contains(" two"));
}

#[test]
fn or_runs_the_next_command_on_failure() {
    let mut fs = FsModel { nodes: Vec::new() };
    let (reply, _) = run("rmdir nope || echo two", sp(&[]), &mut fs);
    assert!(reply.contains("?&N two\n\n"));
    assert!(!reply.contains("rmdir:"));
}

#[test]
fn pipe_feeds_stripped_output_into_grep() {
    let mut fs = FsModel { nodes: vec![file_node(&["a.txt"], "alpha\nbeta\ngamma")] };
    let (reply, _) = run("cat a.txt | grep a\n", sp(&[]), &mut fs);
    assert!(reply.contains("?&C^@a~~lph^@a~~\nbet^@a~~\ng^@a~~mm^@a~~\n\n"));
}

#[test]
fn grep_searches_files_directly() {
    let mut fs = FsModel { nodes: vec![file_node(&["a.txt"], "alpha\nbeta")] };
    let (reply, _) = run("grep al a.txt", sp(&[]), &mut fs);
    assert!(reply.contains("?&C^@al~~pha\n\n"));
    let (reply2, _) = run("grep x nope.txt", sp(&[]), &mut fs);
    assert!(reply2.contains("?&Egrep: No such file or directory\n\n"));
}

#[test]
fn grep_without_enough_arguments_is_a_usage_error() {
    let mut fs = FsModel { nodes: Vec::new() };
    let (reply, _) = run("grep", sp(&[]), &mut fs);
    assert!(reply.contains("?&EUsage: grep PATTERNS [FILE]\n\n"));
}

#[test]
fn trailing_redirect_aborts_with_empty_payload() {
    let mut fs = FsModel { nodes: vec![file_node(&["f"], "x")] };
    let (reply, _) = run("echo hi >", sp(&[]), &mut fs);
    assert_eq!(reply, "[-]:[-]\r\n\r\n");
    let (reply2, _) = run("cat <", sp(&[]), &mut fs);
    assert_eq!(reply2, "[-]:[-]\r\n\r\n");
}

#[test]
fn trailing_logic_operator_yields_empty_payload() {
    let mut fs = FsModel { nodes: Vec::new() };
    let (reply, _) = run("echo hi &&", sp(&[]), &mut fs);
    assert_eq!(reply, "[-]:[-]\r\n\r\n");
    let (reply2, _) = run("echo hi |", sp(&[]), &mut fs);
    assert_eq!(reply2, "[-]:[-]\r\n\r\n");
}

#[test]
fn input_redirection_feeds_the_file() {
    let mut fs = FsModel { nodes: vec![file_node(&["f"], "one two three")] };
    let (reply, _) = run("wc < f", sp(&[]), &mut fs);
    assert!(reply.contains("?&N3\n\n"));
}

#[test]
fn wc_counts_words_of_files() {
    let mut fs = FsModel { nodes: vec![file_node(&["f"], "a b c")] };
    let (reply, _) = run("wc f", sp(&[]), &mut fs);
    assert!(reply.contains("?&N\n3  (f)\n\n"));
}

#[test]
fn wc_counts_piped_styled_words() {
    let mut fs = FsModel { nodes: vec![file_node(&["a.txt"], "alpha\nbeta\ngamma")] };
    let (reply, _) = run("cat a.txt | wc", sp(&[]), &mut fs);
    assert!(reply.contains("?&N3\n\n"));
}

#[test]
fn mkdir_creates_and_refuses_duplicates() {
    let mut fs = FsModel { nodes: Vec::new() };
    let (reply, _) = run("mkdir a/b", sp(&[]), &mut fs);
    assert_eq!(reply, " [-]:[-]\r\n\r\n");
    assert_eq!(fs.nodes.len(), 2);
    let (reply2, _) = run("mkdir a", sp(&[]), &mut fs);
    assert!(reply2.contains("?&Nmkdir: cannot create directory `a`: File exists\n\n"));
    let (reply3, _) = run("mkdir", sp(&[]), &mut fs);
    assert!(reply3.contains("?&Emkdir: missing operand\n\n"));
}

#[test]
fn rm_unlinks_files_only() {
    let mut fs = FsModel { nodes: vec![file_node(&["f"], "x"), dir_node(&["d"])] };
    let (reply, _) = run("rm f", sp(&[]), &mut fs);
    assert_eq!(reply, " [-]:[-]\r\n\r\n");
    let (reply2, _) = run("rm d", sp(&[]), &mut fs);
    assert!(reply2.contains("?&Erm: failed to remove 'd': Not a file\n\n"));
    let (reply3, _) = run("rm", sp(&[]), &mut fs);
    assert!(reply3.contains("?&Erm: missing file\n\n"));
}

#[test]
fn rmdir_removes_empty_directories_only() {
    let mut fs = FsModel {
        nodes: vec![dir_node(&["d"]), dir_node(&["full"]), file_node(&["full", "x"], "")],
    };
    let (reply, _) = run("rmdir d", sp(&[]), &mut fs);
    assert_eq!(reply, " [-]:[-]\r\n\r\n");
    let (reply2, _) = run("rmdir full", sp(&[]), &mut fs);
    assert!(reply2.contains("?&Ermdir: failed to remove 'full': Directory not empty\n\n"));
}

#[test]
fn mv_renames_and_reports_missing_sources() {
    let mut fs = FsModel { nodes: vec![file_node(&["a"], "text")] };
    let (reply, _) = run("mv a b", sp(&[]), &mut fs);
    assert_eq!(reply, " [-]:[-]\r\n\r\n");
    assert_eq!(fs.nodes.len(), 1);
    assert_eq!(fs.nodes[0].path.parts, vec!["b"]);
    let (reply2, _) = run("mv nope c", sp(&[]), &mut fs);
    assert!(reply2.contains("?&Nmv: cannot stat 'nope': No such file or directory \n\n"));
    let (reply3, _) = run("mv b", sp(&[]), &mut fs);
    assert!(reply3.contains("?&Emv: missing destination file\n\n"));
}

#[test]
fn echo_and_ls_are_silenced_under_piped_input() {
    let mut fs = FsModel { nodes: vec![file_node(&["f"], "text")] };
    let (reply, _) = run("cat f | echo loud", sp(&[]), &mut fs);
    assert!(!reply.contains("loud"));
    let (reply2, _) = run("cat f | ls", sp(&[]), &mut fs);
    assert!(!reply2.contains("?&L"));
}

#[test]
fn cd_with_too_many_arguments_fails() {
    let mut fs = FsModel { nodes: vec![dir_node(&["a"]), dir_node(&["b"])] };
    let (reply, dir) = run("cd a b", sp(&[]), &mut fs);
    assert!(reply.contains("?&Ecd: too many arguments\n\n"));
    assert!(dir.parts.is_empty());
}

#[test]
fn input_redirect_of_missing_file_reads_empty() {
    let mut fs = FsModel { nodes: Vec::new() };
    let (reply, _) = run("wc < nope", sp(&[]), &mut fs);
    assert!(reply.contains("?&N0\n\n"));
}

#[test]
fn who_with_arguments_emits_nothing() {
    let mut fs = FsModel { nodes: Vec::new() };
    let mut handler = CommandHandler::new("who now", sp(&[]), vec!["alice".to_string()]);
    let reply = match handler.get_output(&mut fs) {
        HandlerStep::Done { reply, .. } => reply,
        _ => panic!("unexpected executable step"),
    };
    assert_eq!(reply, " [-]:[-]\r\n\r\n");
}

#[test]
fn who_lists_the_signed_in_users() {
    let mut fs = FsModel { nodes: Vec::new() };
    let mut handler = CommandHandler::new("who", sp(&[]), vec![
        "alice".to_string(),
        "bob".to_string(),
    ]);
    let reply = match handler.get_output(&mut fs) {
        HandlerStep::Done { reply, .. } => reply,
        _ => panic!("unexpected executable step"),
    };
    assert_eq!(reply, " ?&Nalice\nbob\n\n[-]:[-]\r\n\r\n");
}

#[test]
fn unknown_commands_are_reported() {
    let mut fs = FsModel { nodes: Vec::new() };
    let (reply, _) = run("frobnicate", sp(&[]), &mut fs);
    assert!(reply.contains("?&EError , Command frobnicate not found \n\n"));
}

#[test]
fn handlers_reject_paths_leaving_the_sandbox() {
    let mut fs = FsModel { nodes: Vec::new() };
    let (reply, _) = run("cat ../../etc/passwd", sp(&[]), &mut fs);
    assert!(reply.contains("cat: ../../etc/passwd: No such file or directory"));
    let (_, _) = run("mkdir ../escape", sp(&[]), &mut fs);
    assert!(fs.nodes.is_empty());
}

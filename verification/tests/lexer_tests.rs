use my_ssh::lexer::get_commands;

fn words(cmds: &my_ssh::lexer::Command) -> Vec<String> {
    cmds.cmd.clone()
}

#[test]
fn splits_simple_words() {
    let cmds = get_commands("echo hello world");
    assert_eq!(cmds.len(), 1);
    assert_eq!(words(&cmds[0]), vec!["echo", "hello", "world"]);
    assert!(cmds[0].op.is_none());
}

#[test]
fn respects_quotes() {
    let cmds = get_commands("echo \"hello world\" | grep hello");
    assert_eq!(cmds.len(), 2);
    assert_eq!(words(&cmds[0]), vec!["echo", "hello world"]);
    assert_eq!(cmds[0].op.as_deref(), Some("|"));
    assert_eq!(words(&cmds[1]), vec!["grep", "hello"]);
    assert!(cmds[1].op.is_none());
}

#[test]
fn unbalanced_quote_yields_nothing() {
    let cmds = get_commands("echo \"oops");
    assert!(cmds.is_empty());
}

#[test]
fn empty_and_blank_input_yield_nothing() {
    assert!(get_commands("").is_empty());
    assert!(get_commands("   \t \n").is_empty());
}

#[test]
fn operators_must_be_separated() {
    // Tie-break: `a|b` is one three-character word, not three tokens.
    let cmds = get_commands("a|b");
    assert_eq!(cmds.len(), 1);
    assert_eq!(words(&cmds[0]), vec!["a|b"]);
    assert!(cmds[0].op.is_none());
}

#[test]
fn every_operator_is_recognised() {
    let cmds = get_commands("a && b || c | d < e > f ; g");
    let ops: Vec<Option<String>> = cmds.iter().map(|c| c.op.clone()).collect();
    assert_eq!(
        ops,
        vec![
            Some("&&".to_string()),
            Some("||".to_string()),
            Some("|".to_string()),
            Some("<".to_string()),
            Some(">".to_string()),
            Some(";".to_string()),
            None
        ]
    );
}

#[test]
fn trailing_operator_keeps_command() {
    let cmds = get_commands("ls >");
    assert_eq!(cmds.len(), 1);
    assert_eq!(words(&cmds[0]), vec!["ls"]);
    assert_eq!(cmds[0].op.as_deref(), Some(">"));
}

#[test]
fn retokenizing_reconstruction_is_stable() {
    // The lexer scenario of its idempotence law: rebuild the line from the
    // grouped commands and lex again.
    let cmds = get_commands("echo a && ls | grep b");
    let mut rebuilt: Vec<String> = Vec::new();
    for c in &cmds {
        rebuilt.extend(c.cmd.iter().cloned());
        if let Some(op) = &c.op {
            rebuilt.push(op.clone());
        }
    }
    let again = get_commands(&rebuilt.join(" "));
    assert_eq!(again.len(), cmds.len());
    for (x, y) in again.iter().zip(cmds.iter()) {
        assert_eq!(x.cmd, y.cmd);
        assert_eq!(x.op, y.op);
    }
}

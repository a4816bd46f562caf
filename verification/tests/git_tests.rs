use termote::git::{
    ahead_behind, git_commit_message, git_log_message, git_repo_info, git_stage_message,
    git_status_message, git_sync_message, has_staged_changes, outgoing_range, parse_git_log,
    parse_outgoing_commits, porcelain_lists, remote_config_key, scm_file_lists,
    source_control_message, trimmed_stdout, CommandOutput,
};
use termote::messages::ServerMessage;
use termote::ports::run_get_port_processes;

fn s(x: &str) -> String {
    x.to_string()
}

fn ok(stdout: &str) -> Option<CommandOutput> {
    Some(CommandOutput { success: true, stdout: stdout.as_bytes().to_vec(), stderr: Vec::new() })
}

fn failed(stderr: &str) -> CommandOutput {
    CommandOutput { success: false, stdout: Vec::new(), stderr: stderr.as_bytes().to_vec() }
}

fn error_text(m: ServerMessage) -> String {
    match m {
        ServerMessage::Error { message } => message,
        _ => panic!("not an error message"),
    }
}

#[test]
fn porcelain_status_lines() {
    let (staged, unstaged, untracked) = porcelain_lists("M  a.rs\n M b.rs\nMM c.rs\n?? d.rs\nx\n");
    assert_eq!(staged, vec![s("a.rs"), s("c.rs")]);
    assert_eq!(unstaged, vec![s("b.rs"), s("c.rs")]);
    assert_eq!(untracked, vec![s("d.rs")]);
}

#[test]
fn trimmed_output_of_successful_commands() {
    assert_eq!(trimmed_stdout(&ok("  main\n")), Some(s("main")));
    assert_eq!(trimmed_stdout(&Some(failed("x"))), None);
    assert_eq!(trimmed_stdout(&None), None);
}

#[test]
fn ahead_behind_counts() {
    assert_eq!(ahead_behind(&ok("3\t5\n")), (Some(5), Some(3)));
    assert_eq!(ahead_behind(&ok("3 x")), (None, Some(3)));
    assert_eq!(ahead_behind(&ok("1 2 3")), (None, None));
    assert_eq!(ahead_behind(&None), (None, None));
}

#[test]
fn status_event() {
    match git_status_message("p", "/r", true, Some(s("main")), &ok("A  n.rs\n"), &ok("0 2")) {
        ServerMessage::GitStatus { pane_id, dir, is_repo, branch, staged, ahead, behind, .. } => {
            assert_eq!((pane_id.as_str(), dir.as_str(), is_repo), ("p", "/r", true));
            assert_eq!(branch, Some(s("main")));
            assert_eq!(staged, vec![s("n.rs")]);
            assert_eq!((ahead, behind), (Some(2), Some(0)));
        },
        _ => panic!("wrong message"),
    }
    match git_status_message("p", "/r", false, None, &None, &None) {
        ServerMessage::GitStatus { is_repo, branch, staged, .. } => {
            assert!(!is_repo);
            assert!(branch.is_none() && staged.is_empty());
        },
        _ => panic!("wrong message"),
    }
}

#[test]
fn staged_changes_are_detected() {
    assert!(has_staged_changes(&ok("M  a\n")));
    assert!(!has_staged_changes(&ok(" M a\n?? b\n")));
    assert!(!has_staged_changes(&Some(failed("no"))));
}

#[test]
fn commit_results() {
    match git_commit_message("p", false, &Ok(failed(""))) {
        ServerMessage::GitCommitResult { success, message, .. } => {
            assert!(!success);
            assert_eq!(message, "No staged changes to commit");
        },
        _ => panic!("wrong message"),
    }
    match git_commit_message("p", true, &Ok(failed("boom"))) {
        ServerMessage::GitCommitResult { success, message, .. } => {
            assert!(!success);
            assert_eq!(message, "Commit failed: boom");
        },
        _ => panic!("wrong message"),
    }
    match git_commit_message("p", true, &Err(s("no git"))) {
        ServerMessage::GitCommitResult { message, .. } => {
            assert_eq!(message, "Failed to execute git commit: no git")
        },
        _ => panic!("wrong message"),
    }
    match git_commit_message("p", true, &Ok(ok("[main 1a2b] msg\n").unwrap())) {
        ServerMessage::GitCommitResult { success, message, .. } => {
            assert!(success);
            assert_eq!(message, "[main 1a2b] msg\n");
        },
        _ => panic!("wrong message"),
    }
}

#[test]
fn stage_results() {
    assert_eq!(error_text(git_stage_message(&Vec::new(), false, &None)), "No files specified");
    let files = vec![s("a"), s("b")];
    assert_eq!(error_text(git_stage_message(&files, false, &Some(Ok(ok("").unwrap())))), "staged 2 file(s)");
    assert_eq!(error_text(git_stage_message(&files, true, &Some(Ok(ok("").unwrap())))), "unstaged 2 file(s)");
    assert_eq!(error_text(git_stage_message(&files, true, &Some(Ok(failed("e"))))), "Failed to unstage files: e");
    assert_eq!(error_text(git_stage_message(&files, false, &Some(Err(s("x"))))), "Failed to execute git command: x");
}

#[test]
fn sync_results() {
    assert_eq!(error_text(git_sync_message(true, &Ok(ok(" done \n").unwrap()))), "Pulled successfully: done");
    assert_eq!(error_text(git_sync_message(false, &Ok(failed(" rejected\n")))), "Push failed: rejected");
    assert_eq!(error_text(git_sync_message(false, &Err(s("x")))), "Failed to execute git push: x");
}

#[test]
fn log_lines() {
    let commits = parse_git_log(&ok("0123456789abcdef|Fix it|Ann|Mon Jan 1 2024 | x\n\nabc|Short|Bob|Tue\n"));
    assert_eq!(commits.len(), 2);
    assert_eq!(commits[0].hash, "0123456789abcdef");
    assert_eq!(commits[0].short_hash, "0123456");
    assert_eq!(commits[0].message, "Fix it");
    assert_eq!(commits[0].author, "Ann");
    assert_eq!(commits[0].date, "Mon Jan 1 2024 | x");
    assert_eq!(commits[1].short_hash, "abc");
    assert!(parse_git_log(&Some(failed("x"))).is_empty());
    match git_log_message("p", "/r", &ok("h|m|a|d\n")) {
        ServerMessage::GitLog { pane_id, dir, commits } => {
            assert_eq!((pane_id.as_str(), dir.as_str(), commits.len()), ("p", "/r", 1));
        },
        _ => panic!("wrong message"),
    }
}

#[test]
fn outgoing_commit_lines() {
    let commits = parse_outgoing_commits(&ok("abcdef123 Add feature x\nfff\n"));
    assert_eq!(commits.len(), 2);
    assert_eq!(commits[0].short_hash, "abcdef1");
    assert_eq!(commits[0].message, "Add feature x");
    assert_eq!(commits[1].hash, "fff");
    assert_eq!(commits[1].message, "");
}

#[test]
fn source_control_lists_and_event() {
    let (staged, unstaged, untracked) = scm_file_lists(&ok("M  a\n D b\n?? c\n"));
    assert_eq!(staged.len(), 1);
    assert_eq!(staged[0].status, "M ");
    assert_eq!(unstaged[0].path, "b");
    assert_eq!(unstaged[0].status, " D");
    assert_eq!(untracked[0].status, "untracked");
    match source_control_message("/r", true, Some(s("main")), Some(s("origin")), &ok(""), &ok("4 1"), &ok("abc fix\n")) {
        ServerMessage::SourceControlState { branch, remote, ahead, behind, outgoing_commits, .. } => {
            assert_eq!(branch, Some(s("main")));
            assert_eq!(remote, Some(s("origin")));
            assert_eq!((ahead, behind), (1, 4));
            assert_eq!(outgoing_commits.len(), 1);
        },
        _ => panic!("wrong message"),
    }
    match source_control_message("/r", true, Some(s("main")), None, &ok(""), &ok("4 1"), &ok("abc fix\n")) {
        ServerMessage::SourceControlState { ahead, behind, outgoing_commits, .. } => {
            assert_eq!((ahead, behind), (0, 0));
            assert!(outgoing_commits.is_empty());
        },
        _ => panic!("wrong message"),
    }
}

#[test]
fn git_command_arguments() {
    assert_eq!(remote_config_key("main"), "branch.main.remote");
    assert_eq!(outgoing_range("origin", "main"), "origin/main..HEAD");
}

#[test]
fn found_repositories() {
    let r = git_repo_info(s("/w/a"), s("a"), &ok("dev\n"));
    assert_eq!(r.path, "/w/a");
    assert_eq!(r.name, "a");
    assert_eq!(r.branch, Some(s("dev")));
    assert_eq!(git_repo_info(s("/w/b"), s("b"), &Some(failed("x"))).branch, None);
}

#[test]
fn listening_dev_ports() {
    let out = "  Proto  Local Address          Foreign Address        State           PID\n  TCP    0.0.0.0:8080           0.0.0.0:0              LISTENING       1234\n  TCP    0.0.0.0:135            0.0.0.0:0              LISTENING       900\n  TCP    [::]:3000              [::]:0                 LISTENING       42\n  TCP    127.0.0.1:3000         0.0.0.0:0              LISTENING       43\n  TCP    127.0.0.1:5000         1.2.3.4:443            ESTABLISHED     7\n";
    let ps = run_get_port_processes(&ok(out));
    assert_eq!(ps.len(), 2);
    assert_eq!((ps[0].port, ps[0].pid), (3000, 42));
    assert_eq!(ps[0].process_name, "PID:42");
    assert_eq!((ps[1].port, ps[1].pid), (8080, 1234));
    assert!(ps[1].cwd.is_none());
    assert!(run_get_port_processes(&None).is_empty());
}

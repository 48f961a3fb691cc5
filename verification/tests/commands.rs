use dsorter::cli::{
    background_args, background_message, config_error, reload_plan, start_plan, status_report, stop_plan, task,
    wait_step, Cli, Commands, DaemonSignal, SignalPlan, StartPlan, StatusFile, Task, WaitStep, LOG_PART_MISSING,
    NOT_RUNNING, USAGE,
};
use dsorter::config::status::Status;
use dsorter::error::ConfigError;
use dsorter::install::{
    launchd_plan, launchd_plan_in, launchd_plan_told, registration, registry_args, systemd_plan,
    systemd_plan_in, systemd_plan_told, Registration,
};
use std::path::PathBuf;

fn path(text: &str) -> PathBuf {
    PathBuf::from(text)
}

fn asked(command: Option<Commands>) -> Task {
    task(&Cli { command, config: None })
}

#[test]
fn commands_become_tasks() {
    assert_eq!(asked(None), Task::Usage);
    assert_eq!(asked(Some(Commands::Log { head: Some(3), tail: None })), Task::LogHead(3));
    assert_eq!(asked(Some(Commands::Log { head: None, tail: Some(20) })), Task::LogTail(20));
    assert_eq!(asked(Some(Commands::Log { head: Some(1), tail: Some(2) })), Task::LogHead(1));
    assert_eq!(asked(Some(Commands::Log { head: None, tail: None })), Task::LogPartMissing);
    assert_eq!(asked(Some(Commands::Start { dry_run: true })), Task::Start { dry_run: true });
    assert_eq!(asked(Some(Commands::Stop)), Task::Stop);
    assert_eq!(asked(Some(Commands::Status)), Task::Status);
    assert_eq!(asked(Some(Commands::Reload)), Task::Reload);
    assert_eq!(asked(Some(Commands::Install)), Task::Install);
    assert_eq!(LOG_PART_MISSING, "specify --head <N> or --tail <N>");
    assert_eq!(USAGE.lines().count(), 11);
}

#[test]
fn second_daemon_is_refused() {
    match start_plan(Some(77), true, false, false) {
        StartPlan::Refuse(text) => assert_eq!(text, "dsorter is already running (pid 77)"),
        _ => panic!("expected a refusal"),
    }
}

#[test]
fn left_over_pid_file_is_removed() {
    assert!(matches!(
        start_plan(Some(77), false, false, false),
        StartPlan::Start { remove_pid_file: true, background: true }
    ));
    assert!(matches!(
        start_plan(None, false, false, false),
        StartPlan::Start { remove_pid_file: false, background: true }
    ));
}

#[test]
fn dry_run_stays_in_the_foreground() {
    assert!(matches!(
        start_plan(None, false, true, false),
        StartPlan::Start { remove_pid_file: false, background: false }
    ));
}

#[test]
fn detached_program_stays_where_it_is() {
    assert!(matches!(
        start_plan(None, false, false, true),
        StartPlan::Start { remove_pid_file: false, background: false }
    ));
}

#[test]
fn background_arguments_repeat_the_command() {
    assert_eq!(background_args(None, false), vec![path("start")]);
    assert_eq!(
        background_args(Some(&path("/c.toml")), true),
        ["--config", "/c.toml", "start", "--dry-run"].map(path)
    );
    assert_eq!(background_message(9), "started dsorter in background (pid 9)");
}

#[test]
fn config_errors_are_logged() {
    let e = ConfigError::Io("denied".to_string());
    assert_eq!(config_error(&e), "config error: denied");
}

#[test]
fn running_daemon_is_signalled() {
    match stop_plan(Some(5), true) {
        SignalPlan::Signal { pid, signal, remove_pid_file, message } => {
            assert_eq!((pid, message.as_str()), (5, "stopped dsorter (pid 5)"));
            assert_eq!((signal, remove_pid_file), (DaemonSignal::Stop, true));
        }
        _ => panic!("expected a signal"),
    }
    match reload_plan(Some(5), true) {
        SignalPlan::Signal { pid, signal, remove_pid_file, message } => {
            assert_eq!((signal, remove_pid_file), (DaemonSignal::Reload, false));
            assert_eq!((pid, message.as_str()), (5, "reloaded dsorter config (pid 5)"));
        }
        _ => panic!("expected a signal"),
    }
}

#[test]
fn absent_daemon_is_not_signalled() {
    for plan in [stop_plan(None, true), stop_plan(Some(5), false), reload_plan(Some(5), false)] {
        match plan {
            SignalPlan::NotRunning(message) => assert_eq!(message, "dsorter is not running"),
            _ => panic!("expected no signal"),
        }
    }
}

#[test]
fn waiting_for_a_stop_ends() {
    assert_eq!(wait_step(0, false), WaitStep::Done);
    assert_eq!(wait_step(0, true), WaitStep::Sleep);
    assert_eq!(wait_step(29, true), WaitStep::Sleep);
    assert_eq!(wait_step(30, true), WaitStep::Terminate);
    assert_eq!(wait_step(30, false), WaitStep::Terminate);
}

#[test]
fn status_of_a_running_daemon() {
    let mut status = Status {
        watching: "/w".to_string(),
        pid: 12,
        started_at: 0,
        last_action: None,
        files_sorted: 3,
    };
    let present = StatusFile::Present(status.copy());
    assert_eq!(
        status_report(Some(11), true, &present),
        vec!["dsorter is running (pid 12)", "watching:     /w", "files sorted: 3"]
    );
    status.last_action = Some("moved a -> /b".to_string());
    assert_eq!(
        status_report(Some(11), true, &StatusFile::Present(status)),
        vec![
            "dsorter is running (pid 12)",
            "watching:     /w",
            "files sorted: 3",
            "last action:  moved a -> /b",
        ]
    );
    assert_eq!(
        status_report(Some(11), true, &StatusFile::Missing),
        vec!["dsorter is running (pid 11) — no status file yet"]
    );
    assert_eq!(
        status_report(Some(11), true, &StatusFile::Unreadable),
        vec!["dsorter is running (pid 11) — status file unreadable"]
    );
    assert_eq!(status_report(Some(11), false, &StatusFile::Missing), vec![NOT_RUNNING]);
    assert_eq!(status_report(None, true, &StatusFile::Missing), vec![NOT_RUNNING]);
}

#[test]
fn systemd_unit_runs_the_program() {
    let plan = systemd_plan_in(&path("/usr/bin/dsorter"), &path("/home/u"));
    assert_eq!(plan.directory, Some(path("/home/u/.config/systemd/user")));
    assert_eq!(plan.failure, "failed to write unit file");
    assert_eq!(plan.path, path("/home/u/.config/systemd/user/dsorter.service"));
    assert_eq!(
        plan.contents,
        "[Unit]\nDescription=dsorter file watcher\n\n[Service]\nExecStart=/usr/bin/dsorter start\nRestart=on-failure\n\n[Install]\nWantedBy=default.target\n"
    );
    assert_eq!(
        plan.messages,
        vec![
            "wrote /home/u/.config/systemd/user/dsorter.service",
            "run: systemctl --user enable --now dsorter.service",
        ]
    );
}

#[test]
fn launchd_agent_runs_the_program() {
    let plan = launchd_plan_in(&path("/opt/dsorter"), &path("/Users/u"));
    assert_eq!(plan.directory, None);
    assert_eq!(plan.failure, "failed to write plist");
    assert_eq!(plan.path, path("/Users/u/Library/LaunchAgents/com.rohit.dsorter.plist"));
    assert!(plan.contents.starts_with("<?xml version=\"1.0\" encoding=\"UTF-8\"?>\n"));
    assert!(plan.contents.contains(
        "<array>\n        <string>/opt/dsorter</string>\n        <string>start</string>\n    </array>"
    ));
    assert!(plan.contents.ends_with("</dict>\n</plist>\n"));
    assert_eq!(
        plan.messages[1],
        "run: launchctl load /Users/u/Library/LaunchAgents/com.rohit.dsorter.plist"
    );
}

#[test]
fn plans_need_a_home_directory() {
    assert!(systemd_plan_told(&path("/x"), None).is_none());
    assert!(launchd_plan_told(&path("/x"), None).is_none());
    assert_eq!(
        systemd_plan_told(&path("/x"), Some(path("/h"))).map(|p| p.path),
        Some(path("/h/.config/systemd/user/dsorter.service"))
    );
    assert_eq!(
        launchd_plan_told(&path("/x"), Some(path("/h"))).map(|p| p.path),
        Some(path("/h/Library/LaunchAgents/com.rohit.dsorter.plist"))
    );
}

#[test]
fn plans_use_the_home_directory_of_the_system() {
    match dirs::home_dir() {
        Some(home) => {
            let unit = home.join(".config/systemd/user/dsorter.service");
            assert_eq!(systemd_plan(&path("/x")).map(|p| p.path), Some(unit));
            let plist = home.join("Library/LaunchAgents/com.rohit.dsorter.plist");
            assert_eq!(launchd_plan(&path("/x")).map(|p| p.path), Some(plist));
        }
        None => {
            assert!(systemd_plan(&path("/x")).is_none());
            assert!(launchd_plan(&path("/x")).is_none());
        }
    }
}

#[test]
fn registry_entry_runs_the_program() {
    assert_eq!(
        registry_args(&path("C:\\dsorter.exe")),
        vec![
            "add",
            "HKCU\\Software\\Microsoft\\Windows\\CurrentVersion\\Run",
            "/v",
            "dsorter",
            "/t",
            "REG_SZ",
            "/d",
            "\"C:\\dsorter.exe\" start",
            "/f",
        ]
    );
    match registration(true, "exit code: 0") {
        Registration::Done(lines) => {
            assert_eq!(lines[1], "dsorter will start automatically when you log in.");
        }
        _ => panic!("expected success"),
    }
    match registration(false, "exit code: 1") {
        Registration::Failed(line) => assert_eq!(
            line,
            "failed to register auto-start: reg.exe exited with code exit code: 1"
        ),
        _ => panic!("expected a failure"),
    }
}

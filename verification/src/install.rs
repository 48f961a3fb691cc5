//! Setting the program up to run at login.
use std::path::PathBuf;
use vstd::prelude::*;
use vstd::utf8::encode_utf8;
use crate::lines::texts;
use crate::paths::{home_dir, join, joined, opt_raw, path_from, raw, shown, shown_text};
use crate::text::{text2, text3};

verus! {

/// A file to be written so that the program runs at login.
pub struct InstallPlan {
    /// The directory that has to be created first.
    pub directory: Option<PathBuf>,
    pub path: PathBuf,
    pub contents: String,
    /// What to say where the file cannot be written.
    pub failure: String,
    /// What to say when the file was written.
    pub messages: Vec<String>,
}

/// The text of a systemd unit before the path of the program.
pub const UNIT_HEAD: &'static str = "[Unit]
Description=dsorter file watcher

[Service]
ExecStart=";

/// The text of a systemd unit behind the path of the program.
pub const UNIT_TAIL: &'static str = " start
Restart=on-failure

[Install]
WantedBy=default.target
";

/// The text of a launchd property list before the path of the program.
pub const PLIST_HEAD: &'static str = r#"<?xml version="1.0" encoding="UTF-8"?>
<!DOCTYPE plist PUBLIC "-//Apple//DTD PLIST 1.0//EN" "http://www.apple.com/DTDs/PropertyList-1.0.dtd">
<plist version="1.0">
<dict>
    <key>Label</key>
    <string>com.rohit.dsorter</string>
    <key>ProgramArguments</key>
    <array>
        <string>"#;

/// The text of a launchd property list behind the path of the program.
pub const PLIST_TAIL: &'static str = r#"</string>
        <string>start</string>
    </array>
    <key>RunAtLoad</key>
    <true/>
    <key>KeepAlive</key>
    <false/>
</dict>
</plist>
"#;

/// `plan` sets up a systemd unit of the user for the program `exe`.
pub open spec fn is_systemd_plan(plan: InstallPlan, exe: Seq<u8>, home: Seq<u8>) -> bool {
    let directory = joined(home, encode_utf8(".config/systemd/user"@));
    let path = joined(directory, encode_utf8("dsorter.service"@));
    &&& plan.directory matches Some(d) && raw(d) == directory
    &&& raw(plan.path) == path
    &&& plan.contents@ == UNIT_HEAD@ + shown(exe) + UNIT_TAIL@
    &&& plan.failure@ == "failed to write unit file"@
    &&& texts(plan.messages@) == seq![
        "wrote "@ + shown(path),
        "run: systemctl --user enable --now dsorter.service"@,
    ]
}

/// `plan` sets up a launchd agent of the user for the program `exe`.
pub open spec fn is_launchd_plan(plan: InstallPlan, exe: Seq<u8>, home: Seq<u8>) -> bool {
    let path = joined(home, encode_utf8("Library/LaunchAgents/com.rohit.dsorter.plist"@));
    &&& plan.directory is None
    &&& raw(plan.path) == path
    &&& plan.contents@ == PLIST_HEAD@ + shown(exe) + PLIST_TAIL@
    &&& plan.failure@ == "failed to write plist"@
    &&& texts(plan.messages@) == seq!["wrote "@ + shown(path), "run: launchctl load "@ + shown(path)]
}

/// The systemd unit for the program `exe` of the user with the given home directory.
pub fn systemd_plan_in(exe: &PathBuf, home: &PathBuf) -> (r: InstallPlan)
    ensures
        is_systemd_plan(r, raw(*exe), raw(*home)),
{
    let directory = join(home, &path_from(".config/systemd/user"));
    let path = join(&directory, &path_from("dsorter.service"));
    let contents = text3(UNIT_HEAD, shown_text(exe).as_str(), UNIT_TAIL);
    let mut messages: Vec<String> = Vec::new();
    messages.push(text2("wrote ", shown_text(&path).as_str()));
    messages.push("run: systemctl --user enable --now dsorter.service".to_owned());
    assert(texts(messages@) =~= seq![
        "wrote "@ + shown(raw(path)),
        "run: systemctl --user enable --now dsorter.service"@,
    ]);
    let failure = "failed to write unit file".to_owned();
    InstallPlan { directory: Some(directory), path, contents, failure, messages }
}

/// The launchd agent for the program `exe` of the user with the given home directory.
pub fn launchd_plan_in(exe: &PathBuf, home: &PathBuf) -> (r: InstallPlan)
    ensures
        is_launchd_plan(r, raw(*exe), raw(*home)),
{
    let path = join(home, &path_from("Library/LaunchAgents/com.rohit.dsorter.plist"));
    let contents = text3(PLIST_HEAD, shown_text(exe).as_str(), PLIST_TAIL);
    let mut messages: Vec<String> = Vec::new();
    messages.push(text2("wrote ", shown_text(&path).as_str()));
    messages.push(text2("run: launchctl load ", shown_text(&path).as_str()));
    assert(texts(messages@) =~= seq![
        "wrote "@ + shown(raw(path)),
        "run: launchctl load "@ + shown(raw(path)),
    ]);
    let failure = "failed to write plist".to_owned();
    InstallPlan { directory: None, path, contents, failure, messages }
}

/// `r` is the systemd unit for the program `exe` in the home directory that was told, and
/// there is one exactly where a home directory was told.
pub open spec fn is_systemd_result(
    r: Option<InstallPlan>,
    exe: Seq<u8>,
    home: Option<Seq<u8>>,
) -> bool {
    match home {
        Some(h) => r matches Some(plan) && is_systemd_plan(plan, exe, h),
        None => r is None,
    }
}

/// `r` is the launchd agent for the program `exe` in the home directory that was told, and
/// there is one exactly where a home directory was told.
pub open spec fn is_launchd_result(
    r: Option<InstallPlan>,
    exe: Seq<u8>,
    home: Option<Seq<u8>>,
) -> bool {
    match home {
        Some(h) => r matches Some(plan) && is_launchd_plan(plan, exe, h),
        None => r is None,
    }
}

/// The systemd unit for the program `exe`, in the home directory that was told.
pub fn systemd_plan_told(exe: &PathBuf, home: Option<PathBuf>) -> (r: Option<InstallPlan>)
    ensures
        is_systemd_result(r, raw(*exe), opt_raw(home)),
{
    match home {
        Some(h) => Some(systemd_plan_in(exe, &h)),
        None => None,
    }
}

/// The launchd agent for the program `exe`, in the home directory that was told.
pub fn launchd_plan_told(exe: &PathBuf, home: Option<PathBuf>) -> (r: Option<InstallPlan>)
    ensures
        is_launchd_result(r, raw(*exe), opt_raw(home)),
{
    match home {
        Some(h) => Some(launchd_plan_in(exe, &h)),
        None => None,
    }
}

/// The systemd unit for the program `exe`, in the home directory that the system tells.
/// `None` where it tells none.
pub fn systemd_plan(exe: &PathBuf) -> (r: Option<InstallPlan>)
    ensures
        exists|home: Option<Seq<u8>>| is_systemd_result(r, raw(*exe), home),
{
    let home = home_dir();
    let ghost told = opt_raw(home);
    let r = systemd_plan_told(exe, home);
    assert(is_systemd_result(r, raw(*exe), told));
    r
}

/// The launchd agent for the program `exe`, in the home directory that the system tells.
/// `None` where it tells none.
pub fn launchd_plan(exe: &PathBuf) -> (r: Option<InstallPlan>)
    ensures
        exists|home: Option<Seq<u8>>| is_launchd_result(r, raw(*exe), home),
{
    let home = home_dir();
    let ghost told = opt_raw(home);
    let r = launchd_plan_told(exe, home);
    assert(is_launchd_result(r, raw(*exe), told));
    r
}

/// The command that runs the program `exe` at login where a registry key starts it.
pub open spec fn run_command(exe: Seq<u8>) -> Seq<char> {
    "\""@ + shown(exe) + "\" start"@
}

/// The arguments of `reg` that register the program `exe` to run at login.
pub fn registry_args(exe: &PathBuf) -> (r: Vec<String>)
    ensures
        texts(r@) == seq![
            "add"@,
            r"HKCU\Software\Microsoft\Windows\CurrentVersion\Run"@,
            "/v"@,
            "dsorter"@,
            "/t"@,
            "REG_SZ"@,
            "/d"@,
            run_command(raw(*exe)),
            "/f"@,
        ],
{
    let mut r: Vec<String> = Vec::new();
    r.push("add".to_owned());
    r.push(r"HKCU\Software\Microsoft\Windows\CurrentVersion\Run".to_owned());
    r.push("/v".to_owned());
    r.push("dsorter".to_owned());
    r.push("/t".to_owned());
    r.push("REG_SZ".to_owned());
    r.push("/d".to_owned());
    r.push(text3("\"", shown_text(exe).as_str(), "\" start"));
    r.push("/f".to_owned());
    assert(texts(r@) =~= seq![
        "add"@,
        r"HKCU\Software\Microsoft\Windows\CurrentVersion\Run"@,
        "/v"@,
        "dsorter"@,
        "/t"@,
        "REG_SZ"@,
        "/d"@,
        run_command(raw(*exe)),
        "/f"@,
    ]);
    r
}

/// What registering the program came to.
pub enum Registration {
    /// It is registered. Holds what to say.
    Done(Vec<String>),
    /// It is not. Holds what to say.
    Failed(String),
}

/// What to say when `reg` ended, by whether it succeeded and how it says it ended.
pub fn registration(success: bool, exit_status: &str) -> (r: Registration)
    ensures
        success ==> (r matches Registration::Done(lines) && texts(lines@) == seq![
            r"Registered dsorter in HKCU\Software\Microsoft\Windows\CurrentVersion\Run"@,
            "dsorter will start automatically when you log in."@,
        ]),
        !success ==> (r matches Registration::Failed(line) && line@
            == "failed to register auto-start: reg.exe exited with code "@ + exit_status@),
{
    if success {
        let mut lines: Vec<String> = Vec::new();
        lines.push(
            r"Registered dsorter in HKCU\Software\Microsoft\Windows\CurrentVersion\Run".to_owned(),
        );
        lines.push("dsorter will start automatically when you log in.".to_owned());
        assert(texts(lines@) =~= seq![
            r"Registered dsorter in HKCU\Software\Microsoft\Windows\CurrentVersion\Run"@,
            "dsorter will start automatically when you log in."@,
        ]);
        Registration::Done(lines)
    } else {
        Registration::Failed(
            text2("failed to register auto-start: reg.exe exited with code ", exit_status),
        )
    }
}

/// The systemd unit of a user is written into the directory for units in the home directory
/// that was told, and runs the program at login; what is said names the file. Without a home
/// directory there is none.
pub proof fn unit_runs_the_program_at_login(
    exe: &PathBuf,
    home: Option<PathBuf>,
    r: Option<InstallPlan>,
)
    requires
        call_ensures(systemd_plan_told, (exe, home), r),
    ensures
        r is Some <==> home is Some,
        home matches Some(h) ==> {
            let plan = r->0;
            let directory = joined(raw(h), encode_utf8(".config/systemd/user"@));
            &&& plan.directory matches Some(d) && raw(d) == directory
            &&& raw(plan.path) == joined(directory, encode_utf8("dsorter.service"@))
            &&& plan.contents@ == "[Unit]\nDescription=dsorter file watcher\n\n[Service]\nExecStart="@
                + shown(raw(*exe))
                + " start\nRestart=on-failure\n\n[Install]\nWantedBy=default.target\n"@
            &&& plan.messages@.len() == 2
            &&& plan.messages@[0]@ == "wrote "@ + shown(raw(plan.path))
            &&& plan.messages@[1]@ == "run: systemctl --user enable --now dsorter.service"@
            &&& plan.failure@ == "failed to write unit file"@
        },
{
    if home is Some {
        let plan = r->0;
        assert(texts(plan.messages@).len() == plan.messages@.len());
        assert(texts(plan.messages@)[0] == plan.messages@[0]@);
        assert(texts(plan.messages@)[1] == plan.messages@[1]@);
    }
}

/// The launchd agent of a user is written into the directory for agents in the home
/// directory that was told, and runs the program at login, once; what is said names the
/// file. Without a home directory there is none.
pub proof fn agent_runs_the_program_at_login(
    exe: &PathBuf,
    home: Option<PathBuf>,
    r: Option<InstallPlan>,
)
    requires
        call_ensures(launchd_plan_told, (exe, home), r),
    ensures
        r is Some <==> home is Some,
        home matches Some(h) ==> {
            let plan = r->0;
            &&& plan.directory is None
            &&& raw(plan.path) == joined(
                raw(h),
                encode_utf8("Library/LaunchAgents/com.rohit.dsorter.plist"@),
            )
            &&& plan.contents@ == r#"<?xml version="1.0" encoding="UTF-8"?>
<!DOCTYPE plist PUBLIC "-//Apple//DTD PLIST 1.0//EN" "http://www.apple.com/DTDs/PropertyList-1.0.dtd">
<plist version="1.0">
<dict>
    <key>Label</key>
    <string>com.rohit.dsorter</string>
    <key>ProgramArguments</key>
    <array>
        <string>"#@ + shown(raw(*exe)) + r#"</string>
        <string>start</string>
    </array>
    <key>RunAtLoad</key>
    <true/>
    <key>KeepAlive</key>
    <false/>
</dict>
</plist>
"#@
            &&& plan.messages@.len() == 2
            &&& plan.messages@[0]@ == "wrote "@ + shown(raw(plan.path))
            &&& plan.messages@[1]@ == "run: launchctl load "@ + shown(raw(plan.path))
            &&& plan.failure@ == "failed to write plist"@
        },
{
    if home is Some {
        let plan = r->0;
        assert(texts(plan.messages@).len() == plan.messages@.len());
        assert(texts(plan.messages@)[0] == plan.messages@[0]@);
        assert(texts(plan.messages@)[1] == plan.messages@[1]@);
    }
}

/// The command that is registered to run at login is the program, in quotes, with the
/// command to start.
pub proof fn registered_command_is_the_quoted_program(exe: &PathBuf, r: Vec<String>)
    requires
        call_ensures(registry_args, (exe,), r),
    ensures
        r@.len() == 9,
        r@[0]@ == "add"@,
        r@[1]@ == r"HKCU\Software\Microsoft\Windows\CurrentVersion\Run"@,
        r@[2]@ == "/v"@,
        r@[3]@ == "dsorter"@,
        r@[4]@ == "/t"@,
        r@[5]@ == "REG_SZ"@,
        r@[6]@ == "/d"@,
        r@[7]@ == seq!['"'] + shown(raw(*exe)) + seq!['"'] + " start"@,
        r@[8]@ == "/f"@,
{
    assert(texts(r@).len() == r@.len());
    assert forall|i: int| 0 <= i < r@.len() implies (#[trigger] r@[i])@ == texts(r@)[i] by {}
    reveal_strlit("\"");
    reveal_strlit("\" start");
    reveal_strlit(" start");
    assert("\""@ =~= seq!['"']);
    assert(run_command(raw(*exe)) =~= seq!['"'] + shown(raw(*exe)) + seq!['"'] + " start"@);
}

/// Registering ends as `reg` ended, and what is said where it failed tells how.
pub proof fn registration_ends_as_the_tool_ended(success: bool, exit_status: &str, r: Registration)
    requires
        call_ensures(registration, (success, exit_status), r),
    ensures
        r is Done <==> success,
        r matches Registration::Done(lines) ==> {
            &&& lines@.len() == 2
            &&& lines@[0]@
                == r"Registered dsorter in HKCU\Software\Microsoft\Windows\CurrentVersion\Run"@
            &&& lines@[1]@ == "dsorter will start automatically when you log in."@
        },
        r matches Registration::Failed(line) ==> line@
            == "failed to register auto-start: reg.exe exited with code "@ + exit_status@,
{
    if success {
        let lines = r->Done_0;
        assert(texts(lines@).len() == lines@.len());
        assert(texts(lines@)[0] == lines@[0]@);
        assert(texts(lines@)[1] == lines@[1]@);
    }
}

} // verus!

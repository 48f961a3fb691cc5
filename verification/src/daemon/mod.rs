//! The daemon's decisions: what to do next, given what the system answered.
//!
//! A `Daemon` never touches the system. Each step takes the answer to the request that is
//! pending and gives back what to do at once, in order, and the next request.
use std::path::PathBuf;
use vstd::prelude::*;
use crate::config::status::{Status, StatusView};
use crate::config::Config;
use crate::error::ConfigError;
use crate::paths::{opt_text, raw, raws};

pub mod laws;
pub mod model;
pub mod run;
pub mod steps;

verus! {

/// What happened to a file in the watched folder.
#[derive(Debug, Clone, Copy, PartialEq, Eq, Structural)]
pub enum EventKind {
    Create,
    /// It was renamed, which is also how a finished download arrives.
    Rename,
    Other,
}

/// What came from the watcher.
pub enum Received {
    Timeout,
    Disconnected,
    /// The watcher reported an error.
    Error(String),
    /// Something happened to the paths; where a file was renamed, the new name is the last.
    Event { kind: EventKind, paths: Vec<PathBuf> },
}

/// The answer to a request.
pub enum Input {
    /// Whether the watcher could be created; the error where it could not.
    WatcherCreated(Option<String>),
    /// Whether the path is watched now; the error where it is not.
    Watched(Option<String>),
    /// Whether the daemon was asked to stop, and whether to reload.
    Flags { stop: bool, reload: bool },
    Loaded(Result<Config, ConfigError>),
    /// Whether the path is no longer watched; the error where it still is.
    Unwatched(Option<String>),
    Received(Received),
    Inspected { exists: bool, is_dir: bool },
    /// Whether the file was moved; the error where it was not.
    Moved(Option<String>),
}

/// Something to do at once, that is not answered.
pub enum Effect {
    Log(String),
    WriteStatus(Status),
    RemovePidFile,
    /// Watch the path again; whether that succeeds does not matter.
    Rewatch(PathBuf),
}

/// Something to do, and to answer.
pub enum Request {
    CreateWatcher,
    Watch(PathBuf),
    ReadFlags,
    LoadConfig,
    Unwatch(PathBuf),
    /// Wait for the watcher, for a second at most.
    Receive,
    /// Look whether there is something at the path, and whether it is a directory.
    Inspect(PathBuf),
    Move { path: PathBuf, dest_dir: PathBuf },
    /// Nothing: the daemon is done.
    Exit { success: bool },
    /// Nothing: the daemon cannot go on.
    Fail(String),
}

pub struct Output {
    pub effects: Vec<Effect>,
    pub request: Request,
}

/// What the daemon waits for.
pub enum Phase {
    Creating,
    Attaching,
    Polling,
    Loading,
    /// The configuration to be adopted, and the path to be watched with it.
    Unwatching { config: Config, path: PathBuf },
    Watching { config: Config, path: PathBuf },
    Receiving,
    Inspecting { path: PathBuf },
    /// The path, the text of its file name, and where to.
    Moving { path: PathBuf, name: String, dest_dir: PathBuf },
    Stopped { success: bool },
    Failed { message: String },
}

// The same, as values.
pub enum ReceivedView {
    Timeout,
    Disconnected,
    Error(Seq<char>),
    Event { kind: EventKind, paths: Seq<Seq<u8>> },
}

pub enum InputView {
    WatcherCreated(Option<Seq<char>>),
    Watched(Option<Seq<char>>),
    Flags { stop: bool, reload: bool },
    Loaded(Result<Config, Seq<char>>),
    Unwatched(Option<Seq<char>>),
    Received(ReceivedView),
    Inspected { exists: bool, is_dir: bool },
    Moved(Option<Seq<char>>),
}

pub enum EffectView {
    Log(Seq<char>),
    WriteStatus(StatusView),
    RemovePidFile,
    Rewatch(Seq<u8>),
}

pub enum RequestView {
    CreateWatcher,
    Watch(Seq<u8>),
    ReadFlags,
    LoadConfig,
    Unwatch(Seq<u8>),
    Receive,
    Inspect(Seq<u8>),
    Move { path: Seq<u8>, dest_dir: Seq<u8> },
    Exit { success: bool },
    Fail(Seq<char>),
}

#[verifier::ext_equal]
pub struct OutputView {
    pub effects: Seq<EffectView>,
    pub request: RequestView,
}

pub enum PhaseView {
    Creating,
    Attaching,
    Polling,
    Loading,
    Unwatching { config: Config, path: Seq<u8> },
    Watching { config: Config, path: Seq<u8> },
    Receiving,
    Inspecting { path: Seq<u8> },
    Moving { path: Seq<u8>, name: Seq<char>, dest_dir: Seq<u8> },
    Stopped { success: bool },
    Failed { message: Seq<char> },
}

/// The daemon as a value.
pub struct DaemonView {
    pub config: Config,
    pub watch_path: Seq<u8>,
    pub status: StatusView,
    pub dry_run: bool,
    pub phase: PhaseView,
}

impl View for Received {
    type V = ReceivedView;

    open spec fn view(&self) -> ReceivedView {
        match self {
            Received::Timeout => ReceivedView::Timeout,
            Received::Disconnected => ReceivedView::Disconnected,
            Received::Error(e) => ReceivedView::Error(e@),
            Received::Event { kind, paths } => ReceivedView::Event {
                kind: *kind,
                paths: raws(paths@),
            },
        }
    }
}

impl View for Input {
    type V = InputView;

    open spec fn view(&self) -> InputView {
        match self {
            Input::WatcherCreated(e) => InputView::WatcherCreated(opt_text(*e)),
            Input::Watched(e) => InputView::Watched(opt_text(*e)),
            Input::Flags { stop, reload } => InputView::Flags { stop: *stop, reload: *reload },
            Input::Loaded(Ok(config)) => InputView::Loaded(Ok(*config)),
            Input::Loaded(Err(e)) => InputView::Loaded(Err(e@.text())),
            Input::Unwatched(e) => InputView::Unwatched(opt_text(*e)),
            Input::Received(r) => InputView::Received(r@),
            Input::Inspected { exists, is_dir } => InputView::Inspected {
                exists: *exists,
                is_dir: *is_dir,
            },
            Input::Moved(e) => InputView::Moved(opt_text(*e)),
        }
    }
}

impl View for Effect {
    type V = EffectView;

    open spec fn view(&self) -> EffectView {
        match self {
            Effect::Log(line) => EffectView::Log(line@),
            Effect::WriteStatus(status) => EffectView::WriteStatus(status@),
            Effect::RemovePidFile => EffectView::RemovePidFile,
            Effect::Rewatch(path) => EffectView::Rewatch(raw(*path)),
        }
    }
}

impl View for Request {
    type V = RequestView;

    open spec fn view(&self) -> RequestView {
        match self {
            Request::CreateWatcher => RequestView::CreateWatcher,
            Request::Watch(path) => RequestView::Watch(raw(*path)),
            Request::ReadFlags => RequestView::ReadFlags,
            Request::LoadConfig => RequestView::LoadConfig,
            Request::Unwatch(path) => RequestView::Unwatch(raw(*path)),
            Request::Receive => RequestView::Receive,
            Request::Inspect(path) => RequestView::Inspect(raw(*path)),
            Request::Move { path, dest_dir } => RequestView::Move {
                path: raw(*path),
                dest_dir: raw(*dest_dir),
            },
            Request::Exit { success } => RequestView::Exit { success: *success },
            Request::Fail(message) => RequestView::Fail(message@),
        }
    }
}

pub open spec fn effect_views(effects: Seq<Effect>) -> Seq<EffectView> {
    effects.map_values(|e: Effect| e@)
}

impl View for Output {
    type V = OutputView;

    open spec fn view(&self) -> OutputView {
        OutputView {
            effects: effect_views(self.effects@),
            request: self.request@,
        }
    }
}

impl View for Phase {
    type V = PhaseView;

    open spec fn view(&self) -> PhaseView {
        match self {
            Phase::Creating => PhaseView::Creating,
            Phase::Attaching => PhaseView::Attaching,
            Phase::Polling => PhaseView::Polling,
            Phase::Loading => PhaseView::Loading,
            Phase::Unwatching { config, path } => PhaseView::Unwatching {
                config: *config,
                path: raw(*path),
            },
            Phase::Watching { config, path } => PhaseView::Watching {
                config: *config,
                path: raw(*path),
            },
            Phase::Receiving => PhaseView::Receiving,
            Phase::Inspecting { path } => PhaseView::Inspecting { path: raw(*path) },
            Phase::Moving { path, name, dest_dir } => PhaseView::Moving {
                path: raw(*path),
                name: name@,
                dest_dir: raw(*dest_dir),
            },
            Phase::Stopped { success } => PhaseView::Stopped { success: *success },
            Phase::Failed { message } => PhaseView::Failed { message: message@ },
        }
    }
}

} // verus!

//! Loading the configuration, and creating it first where there is none.
//!
//! A `ConfigLoad` never touches the system: each step takes the answer to what was asked
//! for, and asks for the next thing.
use std::path::PathBuf;
use vstd::prelude::*;
use crate::config::{Config, DEFAULT_CONFIG};
use crate::error::{ConfigError, ConfigErrorView};
use crate::paths::{parent, parent_of, raw};

verus! {

/// What a load waits for.
#[derive(Debug, Clone, Copy, PartialEq, Eq, Structural)]
pub enum LoadPhase {
    Checking,
    CreatingDirectory,
    Writing,
    Reading,
    Parsing,
}

/// A configuration that is being loaded.
pub struct ConfigLoad {
    pub path: PathBuf,
    pub phase: LoadPhase,
}

/// What to do, and to answer.
pub enum LoadRequest {
    Check { path: PathBuf },
    CreateDirectory { path: PathBuf },
    Write { path: PathBuf, contents: String },
    Read { path: PathBuf },
    Parse { text: String },
}

/// The answer; errors are the messages of the system and of the parser.
pub enum LoadAnswer {
    Exists(bool),
    DirectoryCreated(Result<(), String>),
    Written(Result<(), String>),
    Contents(Result<String, String>),
    Parsed(Result<Config, String>),
}

/// What an answer leads to.
pub enum LoadStep {
    Ask(ConfigLoad, LoadRequest),
    Finished(Result<Config, ConfigError>),
    /// The answer was not to what was asked for.
    Unasked(ConfigLoad),
}

// The same, as values.
pub struct LoadView {
    pub path: Seq<u8>,
    pub phase: LoadPhase,
}

pub enum LoadRequestView {
    Check { path: Seq<u8> },
    CreateDirectory { path: Seq<u8> },
    Write { path: Seq<u8>, contents: Seq<char> },
    Read { path: Seq<u8> },
    Parse { text: Seq<char> },
}

pub enum LoadAnswerView {
    Exists(bool),
    DirectoryCreated(Result<(), Seq<char>>),
    Written(Result<(), Seq<char>>),
    Contents(Result<Seq<char>, Seq<char>>),
    Parsed(Result<Config, Seq<char>>),
}

pub enum LoadStepView {
    Ask(LoadView, LoadRequestView),
    Finished(Result<Config, ConfigErrorView>),
    Unasked(LoadView),
}

impl View for ConfigLoad {
    type V = LoadView;

    open spec fn view(&self) -> LoadView {
        LoadView { path: raw(self.path), phase: self.phase }
    }
}

impl View for LoadRequest {
    type V = LoadRequestView;

    open spec fn view(&self) -> LoadRequestView {
        match self {
            LoadRequest::Check { path } => LoadRequestView::Check { path: raw(*path) },
            LoadRequest::CreateDirectory { path } => LoadRequestView::CreateDirectory {
                path: raw(*path),
            },
            LoadRequest::Write { path, contents } => LoadRequestView::Write {
                path: raw(*path),
                contents: contents@,
            },
            LoadRequest::Read { path } => LoadRequestView::Read { path: raw(*path) },
            LoadRequest::Parse { text } => LoadRequestView::Parse { text: text@ },
        }
    }
}

/// A result with the text of its error.
pub open spec fn error_text<T>(r: Result<T, String>) -> Result<T, Seq<char>> {
    match r {
        Ok(value) => Ok(value),
        Err(e) => Err(e@),
    }
}

impl View for LoadAnswer {
    type V = LoadAnswerView;

    open spec fn view(&self) -> LoadAnswerView {
        match self {
            LoadAnswer::Exists(exists) => LoadAnswerView::Exists(*exists),
            LoadAnswer::DirectoryCreated(r) => LoadAnswerView::DirectoryCreated(error_text(*r)),
            LoadAnswer::Written(r) => LoadAnswerView::Written(error_text(*r)),
            LoadAnswer::Contents(Ok(text)) => LoadAnswerView::Contents(Ok(text@)),
            LoadAnswer::Contents(Err(e)) => LoadAnswerView::Contents(Err(e@)),
            LoadAnswer::Parsed(r) => LoadAnswerView::Parsed(error_text(*r)),
        }
    }
}

impl View for LoadStep {
    type V = LoadStepView;

    open spec fn view(&self) -> LoadStepView {
        match self {
            LoadStep::Ask(load, request) => LoadStepView::Ask(load@, request@),
            LoadStep::Finished(Ok(config)) => LoadStepView::Finished(Ok(*config)),
            LoadStep::Finished(Err(e)) => LoadStepView::Finished(Err(e@)),
            LoadStep::Unasked(load) => LoadStepView::Unasked(load@),
        }
    }
}

/// The load at `path` goes into a phase and asks for something.
pub open spec fn ask(path: Seq<u8>, phase: LoadPhase, request: LoadRequestView) -> LoadStepView {
    LoadStepView::Ask(LoadView { path, phase }, request)
}

/// The load ends with an error.
pub open spec fn fail(error: ConfigErrorView) -> LoadStepView {
    LoadStepView::Finished(Err(error))
}

/// The load asks for the configuration to be read.
pub open spec fn ask_to_read(path: Seq<u8>) -> LoadStepView {
    ask(path, LoadPhase::Reading, LoadRequestView::Read { path })
}

/// What an answer leads to. Where there is no configuration, its directory is created and
/// the default one is written; then it is read and parsed. A path without a parent
/// directory cannot be created, and whatever else fails ends the load with the message
/// that came. An answer to something else changes nothing.
pub open spec fn load_next(load: LoadView, answer: LoadAnswerView) -> LoadStepView {
    let path = load.path;
    match (load.phase, answer) {
        (LoadPhase::Checking, LoadAnswerView::Exists(true)) => ask_to_read(path),
        (LoadPhase::Checking, LoadAnswerView::Exists(false)) => match parent_of(path) {
            Some(directory) => ask(
                path,
                LoadPhase::CreatingDirectory,
                LoadRequestView::CreateDirectory { path: directory },
            ),
            None => fail(ConfigErrorView::NoConfigDir),
        },
        (LoadPhase::CreatingDirectory, LoadAnswerView::DirectoryCreated(Ok(_))) => ask(
            path,
            LoadPhase::Writing,
            LoadRequestView::Write { path, contents: DEFAULT_CONFIG@ },
        ),
        (LoadPhase::CreatingDirectory, LoadAnswerView::DirectoryCreated(Err(e))) => fail(
            ConfigErrorView::Io(e),
        ),
        (LoadPhase::Writing, LoadAnswerView::Written(Ok(_))) => ask_to_read(path),
        (LoadPhase::Writing, LoadAnswerView::Written(Err(e))) => fail(ConfigErrorView::Io(e)),
        (LoadPhase::Reading, LoadAnswerView::Contents(Ok(text))) => ask(
            path,
            LoadPhase::Parsing,
            LoadRequestView::Parse { text },
        ),
        (LoadPhase::Reading, LoadAnswerView::Contents(Err(e))) => fail(ConfigErrorView::Io(e)),
        (LoadPhase::Parsing, LoadAnswerView::Parsed(Ok(config))) => LoadStepView::Finished(
            Ok(config),
        ),
        (LoadPhase::Parsing, LoadAnswerView::Parsed(Err(e))) => fail(ConfigErrorView::Parse(e)),
        _ => LoadStepView::Unasked(load),
    }
}

impl ConfigLoad {
    /// Begins to load the configuration at `path`.
    pub fn begin(path: &PathBuf) -> (r: LoadStep)
        ensures
            r@ == ask(
                raw(*path),
                LoadPhase::Checking,
                LoadRequestView::Check { path: raw(*path) },
            ),
    {
        LoadStep::Ask(
            ConfigLoad { path: path.clone(), phase: LoadPhase::Checking },
            LoadRequest::Check { path: path.clone() },
        )
    }

    /// Takes the answer to what was asked for.
    pub fn answer(self, answer: LoadAnswer) -> (r: LoadStep)
        ensures
            r@ == load_next(self@, answer@),
    {
        match (self.phase, answer) {
            (LoadPhase::Checking, LoadAnswer::Exists(true)) => self.read(),
            (LoadPhase::Checking, LoadAnswer::Exists(false)) => match parent(&self.path) {
                Some(directory) => LoadStep::Ask(
                    ConfigLoad { phase: LoadPhase::CreatingDirectory, ..self },
                    LoadRequest::CreateDirectory { path: directory },
                ),
                None => LoadStep::Finished(Err(ConfigError::NoConfigDir)),
            },
            (LoadPhase::CreatingDirectory, LoadAnswer::DirectoryCreated(Ok(_))) => {
                let path = self.path.clone();
                LoadStep::Ask(
                    ConfigLoad { phase: LoadPhase::Writing, ..self },
                    LoadRequest::Write { path, contents: DEFAULT_CONFIG.to_owned() },
                )
            },
            (
                LoadPhase::CreatingDirectory,
                LoadAnswer::DirectoryCreated(Err(e)),
            ) => LoadStep::Finished(Err(ConfigError::Io(e))),
            (LoadPhase::Writing, LoadAnswer::Written(Ok(_))) => self.read(),
            (LoadPhase::Writing, LoadAnswer::Written(Err(e))) => LoadStep::Finished(
                Err(ConfigError::Io(e)),
            ),
            (LoadPhase::Reading, LoadAnswer::Contents(Ok(text))) => LoadStep::Ask(
                ConfigLoad { phase: LoadPhase::Parsing, ..self },
                LoadRequest::Parse { text },
            ),
            (LoadPhase::Reading, LoadAnswer::Contents(Err(e))) => LoadStep::Finished(
                Err(ConfigError::Io(e)),
            ),
            (LoadPhase::Parsing, LoadAnswer::Parsed(Ok(config))) => LoadStep::Finished(Ok(config)),
            (LoadPhase::Parsing, LoadAnswer::Parsed(Err(e))) => LoadStep::Finished(
                Err(ConfigError::Parse(e)),
            ),
            _ => LoadStep::Unasked(self),
        }
    }

    fn read(self) -> (r: LoadStep)
        ensures
            r@ == ask_to_read(self@.path),
    {
        let path = self.path.clone();
        LoadStep::Ask(ConfigLoad { phase: LoadPhase::Reading, ..self }, LoadRequest::Read { path })
    }
}

/// The load after the given answers: what the last of them led to.
pub open spec fn load_after(path: Seq<u8>, answers: Seq<LoadAnswerView>) -> LoadStepView
    decreases answers.len(),
{
    if answers.len() == 0 {
        ask(path, LoadPhase::Checking, LoadRequestView::Check { path })
    } else {
        match load_after(path, answers.drop_last()) {
            LoadStepView::Ask(load, _) => load_next(load, answers.last()),
            LoadStepView::Unasked(load) => load_next(load, answers.last()),
            LoadStepView::Finished(r) => LoadStepView::Finished(r),
        }
    }
}

/// A load speaks of one path: whatever is answered, every request is about the path that
/// the load began with or about its parent directory, and what is written is the default
/// configuration.
pub proof fn load_stays_at_its_path(path: Seq<u8>, answers: Seq<LoadAnswerView>)
    ensures
        match load_after(path, answers) {
            LoadStepView::Ask(load, request) => load.path == path && match request {
                LoadRequestView::Check { path: p } => p == path,
                LoadRequestView::CreateDirectory { path: p } => parent_of(path) == Some(p),
                LoadRequestView::Write { path: p, contents } => p == path && contents
                    == DEFAULT_CONFIG@,
                LoadRequestView::Read { path: p } => p == path,
                LoadRequestView::Parse { text } => true,
            },
            LoadStepView::Unasked(load) => load.path == path,
            LoadStepView::Finished(_) => true,
        },
    decreases answers.len(),
{
    if answers.len() > 0 {
        load_stays_at_its_path(path, answers.drop_last());
    }
}

/// A configuration that exists is never written to, whatever is answered later.
pub proof fn existing_config_is_not_written(path: Seq<u8>, answers: Seq<LoadAnswerView>)
    requires
        answers.len() > 0,
        answers[0] == LoadAnswerView::Exists(true),
    ensures
        match load_after(path, answers) {
            LoadStepView::Ask(load, request) => (load.phase == LoadPhase::Reading || load.phase
                == LoadPhase::Parsing) && request !is Write && request !is CreateDirectory,
            LoadStepView::Unasked(load) => load.phase == LoadPhase::Reading || load.phase
                == LoadPhase::Parsing,
            LoadStepView::Finished(_) => true,
        },
    decreases answers.len(),
{
    let front = answers.drop_last();
    if answers.len() == 1 {
        assert(load_after(path, front) == ask(
            path,
            LoadPhase::Checking,
            LoadRequestView::Check { path },
        ));
        assert(answers.last() == LoadAnswerView::Exists(true));
    } else {
        existing_config_is_not_written(path, front);
    }
}

/// Where there is no configuration, the default one is written to a directory that was
/// created for it; and the text that is read from there is what is parsed.
pub proof fn missing_config_is_created(path: Seq<u8>, text: Seq<char>, config: Config)
    requires
        parent_of(path) is Some,
    ensures
        ({
            let first = seq![LoadAnswerView::Exists(false)];
            let second = first.push(LoadAnswerView::DirectoryCreated(Ok(())));
            let third = second.push(LoadAnswerView::Written(Ok(())));
            let fourth = third.push(LoadAnswerView::Contents(Ok(text)));
            let fifth = fourth.push(LoadAnswerView::Parsed(Ok(config)));
            &&& load_after(path, first) == ask(
                path,
                LoadPhase::CreatingDirectory,
                LoadRequestView::CreateDirectory { path: parent_of(path)->0 },
            )
            &&& load_after(path, second) == ask(
                path,
                LoadPhase::Writing,
                LoadRequestView::Write { path, contents: DEFAULT_CONFIG@ },
            )
            &&& load_after(path, third) == ask_to_read(path)
            &&& load_after(path, fourth) == ask(
                path,
                LoadPhase::Parsing,
                LoadRequestView::Parse { text },
            )
            &&& load_after(path, fifth) == LoadStepView::Finished(Ok(config))
        }),
{
    let first = seq![LoadAnswerView::Exists(false)];
    let second = first.push(LoadAnswerView::DirectoryCreated(Ok(())));
    let third = second.push(LoadAnswerView::Written(Ok(())));
    let fourth = third.push(LoadAnswerView::Contents(Ok(text)));
    let fifth = fourth.push(LoadAnswerView::Parsed(Ok(config)));
    assert(first.drop_last() =~= Seq::empty());
    assert(second.drop_last() =~= first);
    assert(third.drop_last() =~= second);
    assert(fourth.drop_last() =~= third);
    assert(fifth.drop_last() =~= fourth);
    assert(load_after(path, first.drop_last()) == ask(
        path,
        LoadPhase::Checking,
        LoadRequestView::Check { path },
    ));
}

/// A load begins with a look at the path that it was given.
pub proof fn load_begins_with_a_look(path: &PathBuf, r: LoadStep)
    requires
        call_ensures(ConfigLoad::begin, (path,), r),
    ensures
        r matches LoadStep::Ask(load, request) && {
            &&& raw(load.path) == raw(*path)
            &&& load.phase == LoadPhase::Checking
            &&& request matches LoadRequest::Check { path: p } && raw(p) == raw(*path)
        },
{
}

/// A configuration that exists is read, what is read is parsed, and what was parsed is the
/// result.
pub proof fn existing_config_is_the_result(path: Seq<u8>, text: Seq<char>, config: Config)
    ensures
        ({
            let first = seq![LoadAnswerView::Exists(true)];
            let second = first.push(LoadAnswerView::Contents(Ok(text)));
            let third = second.push(LoadAnswerView::Parsed(Ok(config)));
            &&& load_after(path, first) == LoadStepView::Ask(
                LoadView { path, phase: LoadPhase::Reading },
                LoadRequestView::Read { path },
            )
            &&& load_after(path, second) == LoadStepView::Ask(
                LoadView { path, phase: LoadPhase::Parsing },
                LoadRequestView::Parse { text },
            )
            &&& load_after(path, third) == LoadStepView::Finished(Ok(config))
        }),
{
    let first = seq![LoadAnswerView::Exists(true)];
    let second = first.push(LoadAnswerView::Contents(Ok(text)));
    let third = second.push(LoadAnswerView::Parsed(Ok(config)));
    assert(first.drop_last() =~= Seq::empty());
    assert(second.drop_last() =~= first);
    assert(third.drop_last() =~= second);
    assert(load_after(path, first.drop_last()) == LoadStepView::Ask(
        LoadView { path, phase: LoadPhase::Checking },
        LoadRequestView::Check { path },
    ));
}

/// Whatever fails ends the load with the message that came; and where there is no
/// configuration and no directory for one, with the error that says so.
pub proof fn failure_ends_the_load(load: LoadView, e: Seq<char>)
    ensures
        load.phase == LoadPhase::CreatingDirectory ==> load_next(
            load,
            LoadAnswerView::DirectoryCreated(Err(e)),
        ) == LoadStepView::Finished(Err(ConfigErrorView::Io(e))),
        load.phase == LoadPhase::Writing ==> load_next(load, LoadAnswerView::Written(Err(e)))
            == LoadStepView::Finished(Err(ConfigErrorView::Io(e))),
        load.phase == LoadPhase::Reading ==> load_next(load, LoadAnswerView::Contents(Err(e)))
            == LoadStepView::Finished(Err(ConfigErrorView::Io(e))),
        load.phase == LoadPhase::Parsing ==> load_next(load, LoadAnswerView::Parsed(Err(e)))
            == LoadStepView::Finished(Err(ConfigErrorView::Parse(e))),
        load.phase == LoadPhase::Checking && parent_of(load.path) is None ==> load_next(
            load,
            LoadAnswerView::Exists(false),
        ) == LoadStepView::Finished(Err(ConfigErrorView::NoConfigDir)),
{
}

/// An answer to something that was not asked for changes nothing.
pub proof fn unasked_answer_changes_nothing(load: LoadView, answer: LoadAnswerView)
    requires
        match answer {
            LoadAnswerView::Exists(_) => load.phase != LoadPhase::Checking,
            LoadAnswerView::DirectoryCreated(_) => load.phase != LoadPhase::CreatingDirectory,
            LoadAnswerView::Written(_) => load.phase != LoadPhase::Writing,
            LoadAnswerView::Contents(_) => load.phase != LoadPhase::Reading,
            LoadAnswerView::Parsed(_) => load.phase != LoadPhase::Parsing,
        },
    ensures
        load_next(load, answer) == LoadStepView::Unasked(load),
{
}

/// A configuration that is created watches `~/Downloads`, has a folder for every category,
/// and lists extensions for five of them and for downloads.
pub proof fn created_config_is_the_default_one(path: Seq<u8>)
    requires
        parent_of(path) is Some,
    ensures
        load_next(
            LoadView { path, phase: LoadPhase::CreatingDirectory },
            LoadAnswerView::DirectoryCreated(Ok(())),
        ) == LoadStepView::Ask(
            LoadView { path, phase: LoadPhase::Writing },
            LoadRequestView::Write {
                path,
                contents: r#"[watch]
path = "~/Downloads"

[destinations]
image = "~/Pictures/Downloads-Sorted"
doc = "~/Documents/Downloads-Sorted"
archive = "~/Downloads-Sorted/Archives"
video = "~/Movies/Downloads-Sorted"
audio = "~/Music/Downloads-Sorted"
other = "~/Downloads-Sorted/Other"

[extensions]
image = ["jpg", "png", "gif", "jpeg", "heif"]
doc = ["pdf", "docx", "txt", "xlsx"]
archive = ["zip", "tar", "rar"]
video = ["mkv", "mp4", "mov"]
audio = ["mp3", "wav", "mp4a"]

[partial]
extensions = ["crdownload", "part", "download"]
"#@,
            },
        ),
{
}

/// A step of a load is what is said of it: the same paths, the same texts, and errors with
/// the message that came.
pub proof fn load_step_is_what_is_said_of_it(step: LoadStep, answer: LoadAnswer)
    ensures
        match step {
            LoadStep::Ask(load, request) => step@ == LoadStepView::Ask(
                LoadView { path: raw(load.path), phase: load.phase },
                match request {
                    LoadRequest::Check { path } => LoadRequestView::Check { path: raw(path) },
                    LoadRequest::CreateDirectory { path } => LoadRequestView::CreateDirectory {
                        path: raw(path),
                    },
                    LoadRequest::Write { path, contents } => LoadRequestView::Write {
                        path: raw(path),
                        contents: contents@,
                    },
                    LoadRequest::Read { path } => LoadRequestView::Read { path: raw(path) },
                    LoadRequest::Parse { text } => LoadRequestView::Parse { text: text@ },
                },
            ),
            LoadStep::Finished(Ok(config)) => step@ == LoadStepView::Finished(Ok(config)),
            LoadStep::Finished(Err(ConfigError::Io(e))) => step@ == LoadStepView::Finished(
                Err(ConfigErrorView::Io(e@)),
            ),
            LoadStep::Finished(Err(ConfigError::Parse(e))) => step@ == LoadStepView::Finished(
                Err(ConfigErrorView::Parse(e@)),
            ),
            LoadStep::Finished(Err(ConfigError::NoConfigDir)) => step@ == LoadStepView::Finished(
                Err(ConfigErrorView::NoConfigDir),
            ),
            LoadStep::Unasked(load) => step@ == LoadStepView::Unasked(
                LoadView { path: raw(load.path), phase: load.phase },
            ),
        },
        match answer {
            LoadAnswer::Exists(there) => answer@ == LoadAnswerView::Exists(there),
            LoadAnswer::DirectoryCreated(Ok(_)) => answer@ == LoadAnswerView::DirectoryCreated(
                Ok(()),
            ),
            LoadAnswer::DirectoryCreated(Err(e)) => answer@ == LoadAnswerView::DirectoryCreated(
                Err(e@),
            ),
            LoadAnswer::Written(Ok(_)) => answer@ == LoadAnswerView::Written(Ok(())),
            LoadAnswer::Written(Err(e)) => answer@ == LoadAnswerView::Written(Err(e@)),
            LoadAnswer::Contents(Ok(text)) => answer@ == LoadAnswerView::Contents(Ok(text@)),
            LoadAnswer::Contents(Err(e)) => answer@ == LoadAnswerView::Contents(Err(e@)),
            LoadAnswer::Parsed(Ok(config)) => answer@ == LoadAnswerView::Parsed(Ok(config)),
            LoadAnswer::Parsed(Err(e)) => answer@ == LoadAnswerView::Parsed(Err(e@)),
        },
{
}

} // verus!

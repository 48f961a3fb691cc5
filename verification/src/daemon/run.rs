//! The daemon at work.
use std::path::PathBuf;
use vstd::hash_map::StringHashMap;
use vstd::hash_set::StringHashSet;
use vstd::prelude::*;
use crate::config::status::Status;
use crate::config::Config;
use crate::daemon::model::{
    after_attachment, after_creation, after_flags, after_inspection, after_load, after_move,
    after_receiving, after_unwatching, after_watching, go, is_partial, next, pending, sorted_as,
    sorting_extension, started, step_to,
};
use crate::daemon::{
    effect_views, DaemonView, Effect, EffectView, EventKind, Input, InputView, Output, Phase,
    Received, Request,
};
use crate::error::ConfigError;
use crate::paths::{
    file_extension, file_name, home_dir, lossy_text, opt_path, opt_raw, opt_text, raw, same_path,
    shown, shown_text, unicode_text,
};
use crate::text::{lowercase, text2, text3, text4, to_lowercase};
use crate::types::{classify, destination_in, lookup, Category, Destination};
use crate::utils::{build_extension_map, expand_tilde_in, expanded, is_extension_map};

verus! {

/// The daemon: its configuration, what it watches, and what it waits for.
pub struct Daemon {
    config: Config,
    extension_map: StringHashMap<Category>,
    /// The extensions of files that are still being downloaded, in lower case.
    partial: StringHashSet,
    watch_path: PathBuf,
    status: Status,
    dry_run: bool,
    phase: Phase,
}

impl View for Daemon {
    type V = DaemonView;

    closed spec fn view(&self) -> DaemonView {
        DaemonView {
            config: self.config,
            watch_path: raw(self.watch_path),
            status: self.status@,
            dry_run: self.dry_run,
            phase: self.phase@,
        }
    }
}

/// The set holds the partial extensions of a configuration, in lower case.
pub open spec fn is_partial_set(set: Set<Seq<char>>, config: Config) -> bool {
    forall|e: Seq<char>| #[trigger] set.contains(e) <==> is_partial(config, e)
}

/// The extensions of files that are still being downloaded, in lower case.
pub fn partial_extensions(config: &Config) -> (r: StringHashSet)
    ensures
        is_partial_set(r@, *config),
{
    let ghost listed = config.partial.extensions@;
    let mut set = StringHashSet::new();
    let mut i: usize = 0;
    while i < config.partial.extensions.len()
        invariant
            listed == config.partial.extensions@,
            i <= listed.len(),
            forall|e: Seq<char>| #[trigger]
                set@.contains(e) <==> exists|k: int|
                    0 <= k < i && lowercase(#[trigger] listed[k]@) == e,
        decreases listed.len() - i,
    {
        let ghost before = set@;
        let lowered = to_lowercase(config.partial.extensions[i].as_str());
        let ghost entered = lowered@;
        set.insert(lowered);
        i += 1;
        assert forall|e: Seq<char>| #[trigger]
            set@.contains(e) <==> exists|k: int|
                0 <= k < i && lowercase(#[trigger] listed[k]@) == e by {
            let had = before.contains(e);
            if e == entered {
                assert(lowercase(listed[i - 1]@) == e);
            }
        }
    }
    set
}

/// The daemon waits for a configuration and gets one that names the path it watches.
pub open spec fn reloads_same_path(
    d: DaemonView,
    input: InputView,
    home: Option<Seq<u8>>,
) -> bool {
    &&& d.phase is Loading
    &&& input matches InputView::Loaded(Ok(config))
    &&& expanded(config.watch.path@, home) == Some(d.watch_path)
}

/// No effects.
fn nothing() -> (r: Vec<Effect>)
    ensures
        effect_views(r@) == Seq::<EffectView>::empty(),
{
    let r: Vec<Effect> = Vec::new();
    assert(effect_views(r@) =~= Seq::<EffectView>::empty());
    r
}

/// The one effect of logging a line.
fn log(line: String) -> (r: Vec<Effect>)
    ensures
        effect_views(r@) == seq![EffectView::Log(line@)],
{
    let mut r: Vec<Effect> = Vec::new();
    r.push(Effect::Log(line));
    assert(effect_views(r@) =~= seq![EffectView::Log(line@)]);
    r
}

/// The effects, and one more behind them.
fn and(effects: Vec<Effect>, effect: Effect) -> (r: Vec<Effect>)
    ensures
        effect_views(r@) == effect_views(effects@).push(effect@),
{
    let mut r = effects;
    r.push(effect);
    assert(effect_views(r@) =~= effect_views(effects@).push(effect@));
    r
}

impl Daemon {
    #[verifier::type_invariant]
    spec fn inv(self) -> bool {
        &&& is_extension_map(self.extension_map@, self.config.extensions@)
        &&& is_partial_set(self.partial@, self.config)
    }

    /// The request that is pending.
    fn request(&self) -> (r: Request)
        ensures
            r@ == pending(self@),
    {
        match &self.phase {
            Phase::Creating => Request::CreateWatcher,
            Phase::Attaching => Request::Watch(self.watch_path.clone()),
            Phase::Polling => Request::ReadFlags,
            Phase::Loading => Request::LoadConfig,
            Phase::Unwatching { config, path } => Request::Unwatch(self.watch_path.clone()),
            Phase::Watching { config, path } => Request::Watch(path.clone()),
            Phase::Receiving => Request::Receive,
            Phase::Inspecting { path } => Request::Inspect(path.clone()),
            Phase::Moving { path, name, dest_dir } => Request::Move {
                path: path.clone(),
                dest_dir: dest_dir.clone(),
            },
            Phase::Stopped { success } => Request::Exit { success: *success },
            Phase::Failed { message } => Request::Fail(message.clone()),
        }
    }

    /// The daemon in another phase, and what to do.
    fn enter(self, phase: Phase, effects: Vec<Effect>) -> (r: (Daemon, Output))
        ensures
            (r.0@, r.1@) == step_to(go(self@, phase@), effect_views(effects@)),
    {
        proof {
            use_type_invariant(&self);
        }
        let d = Daemon { phase, ..self };
        let request = d.request();
        (d, Output { effects, request })
    }

    /// The daemon with another configuration.
    fn adopt(self, config: Config) -> (r: Daemon)
        ensures
            r@ == (DaemonView { config, ..self@ }),
    {
        let extension_map = build_extension_map(&config);
        let partial = partial_extensions(&config);
        Daemon { config, extension_map, partial, ..self }
    }

    /// A daemon that has yet to create its watcher, with the given home directory. `None`
    /// where the watched path is in the home directory and there is none.
    pub fn start_in(
        config: Config,
        dry_run: bool,
        pid: i32,
        started_at: u64,
        home: Option<&PathBuf>,
    ) -> (r: Option<(Daemon, Output)>)
        ensures
            match r {
                Some((d, out)) => expanded(config.watch.path@, opt_path(home)) is Some && (d@, out@)
                    == started(
                    config,
                    dry_run,
                    pid,
                    started_at,
                    expanded(config.watch.path@, opt_path(home))->0,
                ),
                None => expanded(config.watch.path@, opt_path(home)) is None,
            },
    {
        match expand_tilde_in(config.watch.path.as_str(), home) {
            None => None,
            Some(watch_path) => {
                let extension_map = build_extension_map(&config);
                let partial = partial_extensions(&config);
                let status = Status {
                    watching: shown_text(&watch_path),
                    pid,
                    started_at,
                    last_action: None,
                    files_sorted: 0,
                };
                let effects = and(nothing(), Effect::WriteStatus(status.copy()));
                assert(effect_views(effects@) =~= seq![EffectView::WriteStatus(status@)]);
                let d = Daemon {
                    config,
                    extension_map,
                    partial,
                    watch_path,
                    status,
                    dry_run,
                    phase: Phase::Creating,
                };
                let request = d.request();
                Some((d, Output { effects, request }))
            },
        }
    }

    /// A daemon that has yet to create its watcher, with the home directory that the
    /// system tells.
    pub fn start(config: Config, dry_run: bool, pid: i32, started_at: u64) -> (r: Option<
        (Daemon, Output),
    >)
        ensures
            exists|home: Option<Seq<u8>>|
                match r {
                    Some((d, out)) => #[trigger] expanded(config.watch.path@, home) is Some && (
                        d@,
                        out@,
                    ) == started(
                        config,
                        dry_run,
                        pid,
                        started_at,
                        expanded(config.watch.path@, home)->0,
                    ),
                    None => expanded(config.watch.path@, home) is None,
                },
    {
        let home = home_dir();
        let ghost watched = expanded(config.watch.path@, opt_raw(home));
        Daemon::start_in(config, dry_run, pid, started_at, home.as_ref())
    }

    fn created(self, error: Option<String>) -> (r: (Daemon, Output))
        ensures
            (r.0@, r.1@) == after_creation(self@, opt_text(error)),
    {
        match error {
            None => self.enter(Phase::Attaching, nothing()),
            Some(e) => {
                let line = text2("failed to create watcher: ", e.as_str());
                self.enter(Phase::Stopped { success: false }, log(line))
            },
        }
    }

    fn attached(self, error: Option<String>) -> (r: (Daemon, Output))
        ensures
            (r.0@, r.1@) == after_attachment(self@, opt_text(error)),
    {
        match error {
            None => self.enter(Phase::Polling, nothing()),
            Some(e) => {
                let watched = shown_text(&self.watch_path);
                let line = text4("failed to watch ", watched.as_str(), ": ", e.as_str());
                self.enter(Phase::Stopped { success: false }, log(line))
            },
        }
    }

    fn polled(self, stop: bool, reload: bool) -> (r: (Daemon, Output))
        ensures
            (r.0@, r.1@) == after_flags(self@, stop, reload),
    {
        if stop {
            let line = "dsorter received stop signal, shutting down".to_owned();
            let effects = and(log(line), Effect::RemovePidFile);
            assert(effect_views(effects@) =~= seq![
                EffectView::Log(line@),
                EffectView::RemovePidFile,
            ]);
            self.enter(Phase::Stopped { success: true }, effects)
        } else if reload {
            self.enter(Phase::Loading, nothing())
        } else {
            self.enter(Phase::Receiving, nothing())
        }
    }

    fn loaded(self, loaded: Result<Config, ConfigError>, home: Option<&PathBuf>) -> (r: (
        Daemon,
        Output,
    ))
        ensures
            (r.0@, r.1@) == after_load(
                self@,
                match loaded {
                    Ok(config) => Ok(config),
                    Err(e) => Err(e@.text()),
                },
                opt_path(home),
            ),
            loaded matches Ok(config) ==> expanded(config.watch.path@, opt_path(home)) == Some(
                self@.watch_path,
            ) ==> r.0@.phase is Receiving,
    {
        match loaded {
            Err(e) => {
                let line = text2("reload failed, keeping old config: ", e.message().as_str());
                self.enter(Phase::Receiving, log(line))
            },
            Ok(config) => match expand_tilde_in(config.watch.path.as_str(), home) {
                None => self.enter(
                    Phase::Failed { message: "could not determine home directory".to_owned() },
                    nothing(),
                ),
                Some(path) => if same_path(&path, &self.watch_path) {
                    self.adopt(config).enter(Phase::Receiving, log("config reloaded".to_owned()))
                } else {
                    self.enter(Phase::Unwatching { config, path }, nothing())
                },
            },
        }
    }

    fn unwatched(self, config: Config, path: PathBuf, error: Option<String>) -> (r: (
        Daemon,
        Output,
    ))
        ensures
            (r.0@, r.1@) == after_unwatching(self@, config, raw(path), opt_text(error)),
    {
        let effects = match error {
            None => nothing(),
            Some(e) => {
                let watched = shown_text(&self.watch_path);
                log(text4("failed to unwatch ", watched.as_str(), ": ", e.as_str()))
            },
        };
        self.enter(Phase::Watching { config, path }, effects)
    }

    fn watched(self, config: Config, path: PathBuf, error: Option<String>) -> (r: (Daemon, Output))
        ensures
            (r.0@, r.1@) == after_watching(self@, config, raw(path), opt_text(error)),
    {
        let d = self.adopt(config);
        proof {
            use_type_invariant(&d);
        }
        match error {
            None => {
                let line = text2("now watching ", shown_text(&path).as_str());
                let status = Status { watching: shown_text(&path), ..d.status };
                let reported = Effect::WriteStatus(status.copy());
                let effects = and(
                    and(log(line), reported),
                    Effect::Log("config reloaded".to_owned()),
                );
                assert(effect_views(effects@) =~= seq![
                    EffectView::Log("now watching "@ + shown(raw(path))),
                    EffectView::WriteStatus(status@),
                    EffectView::Log("config reloaded"@),
                ]);
                let moved_on = Daemon { watch_path: path, status, ..d };
                moved_on.enter(Phase::Receiving, effects)
            },
            Some(e) => {
                let reason = text2(e.as_str(), " — reverting");
                let line = text4(
                    "failed to watch ",
                    shown_text(&path).as_str(),
                    ": ",
                    reason.as_str(),
                );
                let again = Effect::Rewatch(d.watch_path.clone());
                let effects = and(and(log(line), again), Effect::Log("config reloaded".to_owned()));
                assert(effect_views(effects@) =~= seq![
                    EffectView::Log(line@),
                    EffectView::Rewatch(raw(self.watch_path)),
                    EffectView::Log("config reloaded"@),
                ]);
                d.enter(Phase::Receiving, effects)
            },
        }
    }

    fn received(self, received: Received) -> (r: (Daemon, Output))
        ensures
            (r.0@, r.1@) == after_receiving(self@, received@),
    {
        match received {
            Received::Timeout => self.enter(Phase::Polling, nothing()),
            Received::Disconnected => self.enter(
                Phase::Stopped { success: true },
                log("watcher channel disconnected, shutting down".to_owned()),
            ),
            Received::Error(e) => self.enter(
                Phase::Polling,
                log(text2("watch error: ", e.as_str())),
            ),
            Received::Event { kind, paths } => if kind != EventKind::Other && paths.len() > 0 {
                let index: usize = paths.len() - 1;
                let path = paths[index].clone();
                self.enter(Phase::Inspecting { path }, nothing())
            } else {
                self.enter(Phase::Polling, nothing())
            },
        }
    }

    /// Whether a file with the extension is still being downloaded.
    fn is_unfinished(&self, ext: &Option<String>) -> (r: bool)
        ensures
            r == (ext is Some && is_partial(self@.config, lowercase(ext->0@))),
    {
        proof {
            use_type_invariant(self);
        }
        match ext {
            Some(e) => self.partial.contains(to_lowercase(e.as_str()).as_str()),
            None => false,
        }
    }

    /// The category of files with the extension.
    fn category(&self, ext: &Option<String>) -> (r: Category)
        ensures
            r == sorted_as(self@.config, opt_text(*ext)),
    {
        proof {
            use_type_invariant(self);
        }
        match ext {
            Some(e) => {
                let ghost known = lookup(self.extension_map@, lowercase(e@));
                classify(Some(e.as_str()), &self.extension_map)
            },
            None => classify(None, &self.extension_map),
        }
    }

    fn inspected(self, path: PathBuf, is_file: bool, home: Option<&PathBuf>) -> (r: (Daemon, Output))
        ensures
            (r.0@, r.1@) == after_inspection(self@, raw(path), is_file, opt_path(home)),
    {
        if !is_file {
            return self.enter(Phase::Polling, nothing());
        }
        let name = match file_name(&path) {
            Some(own) => lossy_text(&own),
            None => {
                return self.enter(
                    Phase::Failed { message: "file has no name".to_owned() },
                    nothing(),
                );
            },
        };
        let ext = match file_extension(&path) {
            Some(ext) => unicode_text(&ext),
            None => None,
        };
        assert(opt_text(ext) == sorting_extension(raw(path)));
        if self.is_unfinished(&ext) {
            return self.enter(Phase::Polling, nothing());
        }
        let category = self.category(&ext);
        let found = log(text3(name.as_str(), " -> ", category.name()));
        match destination_in(category, &self.config, home) {
            Destination::Unset => self.enter(Phase::Polling, found),
            Destination::NoHome => self.enter(
                Phase::Failed { message: "could not determine home directory".to_owned() },
                found,
            ),
            Destination::Folder(dest_dir) => if self.dry_run {
                let line = text4(
                    "[dry-run] would move ",
                    name.as_str(),
                    " -> ",
                    shown_text(&dest_dir).as_str(),
                );
                let ghost logged = EffectView::Log(line@);
                let ghost before = effect_views(found@);
                let effects = and(found, Effect::Log(line));
                assert(effect_views(effects@) =~= seq![before[0], logged]);
                self.enter(Phase::Polling, effects)
            } else {
                self.enter(Phase::Moving { path, name, dest_dir }, found)
            },
        }
    }

    fn moved(self, name: String, dest_dir: PathBuf, error: Option<String>) -> (r: (Daemon, Output))
        ensures
            (r.0@, r.1@) == after_move(self@, name@, raw(dest_dir), opt_text(error)),
    {
        proof {
            use_type_invariant(&self);
        }
        match error {
            Some(e) => {
                let line = text4("failed to move ", name.as_str(), ": ", e.as_str());
                self.enter(Phase::Polling, log(line))
            },
            None => {
                let done = text4(
                    "moved ",
                    name.as_str(),
                    " -> ",
                    shown_text(&dest_dir).as_str(),
                );
                if self.status.files_sorted == u64::MAX {
                    self.enter(
                        Phase::Failed { message: "too many files sorted".to_owned() },
                        log(done),
                    )
                } else {
                    let status = Status {
                        files_sorted: self.status.files_sorted + 1,
                        last_action: Some(done.clone()),
                        ..self.status
                    };
                    let reported = Effect::WriteStatus(status.copy());
                    let effects = and(log(done), reported);
                    assert(effect_views(effects@) =~= seq![
                        EffectView::Log(done@),
                        EffectView::WriteStatus(status@),
                    ]);
                    let d = Daemon { status, ..self };
                    d.enter(Phase::Polling, effects)
                }
            },
        }
    }

    /// Takes the answer to the pending request, with the given home directory. An answer
    /// to another request changes nothing. A configuration that names the path that is
    /// watched already does not touch the watcher.
    pub fn step_in(self, input: Input, home: Option<&PathBuf>) -> (r: (Daemon, Output))
        ensures
            (r.0@, r.1@) == next(self@, input@, opt_path(home)),
            reloads_same_path(self@, input@, opt_path(home)) ==> r.0@.phase is Receiving,
    {
        proof {
            use_type_invariant(&self);
        }
        let Daemon { config, extension_map, partial, watch_path, status, dry_run, phase } = self;
        let rest = Daemon {
            config,
            extension_map,
            partial,
            watch_path,
            status,
            dry_run,
            phase: Phase::Polling,
        };
        match (phase, input) {
            (Phase::Creating, Input::WatcherCreated(error)) => rest.created(error),
            (Phase::Attaching, Input::Watched(error)) => rest.attached(error),
            (Phase::Polling, Input::Flags { stop, reload }) => rest.polled(stop, reload),
            (Phase::Loading, Input::Loaded(loaded)) => rest.loaded(loaded, home),
            (Phase::Unwatching { config, path }, Input::Unwatched(error)) => rest.unwatched(
                config,
                path,
                error,
            ),
            (Phase::Watching { config, path }, Input::Watched(error)) => rest.watched(
                config,
                path,
                error,
            ),
            (Phase::Receiving, Input::Received(received)) => rest.received(received),
            (
                Phase::Inspecting { path },
                Input::Inspected { exists, is_dir },
            ) => rest.inspected(path, exists && !is_dir, home),
            (Phase::Moving { path, name, dest_dir }, Input::Moved(error)) => rest.moved(
                name,
                dest_dir,
                error,
            ),
            (phase, _) => rest.enter(phase, nothing()),
        }
    }

    /// Takes the answer to the pending request, with the home directory that the system
    /// tells.
    pub fn step(self, input: Input) -> (r: (Daemon, Output))
        ensures
            exists|home: Option<Seq<u8>>|
                (r.0@, r.1@) == #[trigger] next(self@, input@, home) && (reloads_same_path(
                    self@,
                    input@,
                    home,
                ) ==> r.0@.phase is Receiving),
    {
        let home = home_dir();
        let r = self.step_in(input, home.as_ref());
        assert((r.0@, r.1@) == next(self@, input@, opt_raw(home)));
        r
    }
}

} // verus!

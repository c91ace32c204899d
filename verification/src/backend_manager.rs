//! Reloading the backend while the application runs: what is shown meanwhile,
//! and what stands when a reload fails.

use vstd::prelude::*;

use crate::backend::{display_name, BackendConfig};
use crate::state::{BackendStateModel, BackendStatus, BackendStatusState, StatusModel};
use crate::text::strings::concat;
use crate::time::Instant;

verus! {

/// Commands to the backend manager.
#[derive(Debug, Clone)]
pub enum BackendCommand {
    /// Reload the backend with a new configuration. The model's name is the
    /// one users know, not a path.
    Reload { backend_config: BackendConfig, model_name: String },
    /// Shut the manager down.
    Shutdown,
}

/// The state of a backend manager.
#[verifier::ext_equal]
pub struct ManagerModel<F> {
    pub status: StatusModel<F>,
    /// A backend is ready for transcription.
    pub ready: bool,
    /// The names of backend and model before the reload under way.
    pub previous: Option<(Seq<char>, Seq<char>)>,
}

/// Keeps the status of the backend.
#[derive(Debug)]
pub struct BackendManager<F> {
    status: BackendStatus<F>,
    ready: bool,
    previous: Option<(String, String)>,
}

/// What an optional pair of names holds.
pub open spec fn names_view(p: Option<(String, String)>) -> Option<(Seq<char>, Seq<char>)> {
    match p {
        Some((a, b)) => Some((a@, b@)),
        None => None,
    }
}

impl<F> View for BackendManager<F> {
    type V = ManagerModel<F>;

    closed spec fn view(&self) -> ManagerModel<F> {
        ManagerModel {
            status: self.status@,
            ready: self.ready,
            previous: names_view(self.previous),
        }
    }
}

/// A reload has begun: nothing is ready, the new names are shown.
pub open spec fn after_reload_begins<F>(
    m: ManagerModel<F>,
    config: BackendConfig,
    model_name: Seq<char>,
) -> ManagerModel<F> {
    ManagerModel {
        status: StatusModel {
            backend_name: display_name(config.backend),
            model_name,
            state: BackendStateModel::Loading("Resolving model..."@),
            download_progress: None,
            ..m.status
        },
        ready: false,
        previous: Some((m.status.backend_name, m.status.model_name)),
    }
}

/// The model was found, or downloaded: its backend is being loaded.
pub open spec fn after_resolved<F>(m: ManagerModel<F>) -> ManagerModel<F> {
    ManagerModel {
        status: StatusModel {
            state: BackendStateModel::Loading("Loading backend..."@),
            download_progress: None,
            ..m.status
        },
        ..m
    }
}

/// The new backend stands.
pub open spec fn after_loaded<F>(m: ManagerModel<F>) -> ManagerModel<F> {
    ManagerModel {
        status: StatusModel { state: BackendStateModel::Ready, ..m.status },
        ready: true,
        previous: None,
    }
}

/// The reload failed: the former names are shown again, and the former backend
/// is ready.
pub open spec fn after_failed<F>(
    m: ManagerModel<F>,
    text: Seq<char>,
    now: Instant,
    resolving: bool,
) -> ManagerModel<F> {
    ManagerModel {
        status: StatusModel {
            backend_name: match m.previous {
                Some((backend, _)) => backend,
                None => m.status.backend_name,
            },
            model_name: match m.previous {
                Some((_, model)) => model,
                None => m.status.model_name,
            },
            state: BackendStateModel::Error(text),
            error_time: Some(now),
            download_progress: if resolving {
                None
            } else {
                m.status.download_progress
            },
            ..m.status
        },
        ready: true,
        previous: None,
    }
}

impl<F> BackendManager<F> {
    /// A manager of the backend with this status.
    pub fn new(status: BackendStatus<F>, ready: bool) -> (r: Self)
        ensures
            r@ == (ManagerModel { status: status@, ready, previous: None }),
    {
        BackendManager { status, ready, previous: None }
    }

    /// Begins a reload.
    pub fn begin_reload(&mut self, backend_config: &BackendConfig, model_name: &str)
        ensures
            final(self)@ == after_reload_begins(old(self)@, *backend_config, model_name@),
    {
        self.ready = false;
        self.previous = Some((self.status.backend_name.clone(), self.status.model_name.clone()));
        self.status.backend_name = backend_config.backend.display_name();
        self.status.model_name = model_name.to_owned();
        self.status.state = BackendStatusState::Loading("Resolving model...".to_owned());
        self.status.download_progress = None;
    }

    /// Notes the progress of a download.
    pub fn progress(&mut self, progress: F)
        ensures
            final(self)@ == (ManagerModel {
                status: StatusModel {
                    download_progress: Some(progress),
                    ..old(self)@.status
                },
                ..old(self)@
            }),
    {
        self.status.download_progress = Some(progress);
    }

    /// The model was found, or downloaded.
    pub fn model_resolved(&mut self)
        ensures
            final(self)@ == after_resolved(old(self)@),
    {
        self.status.download_progress = None;
        self.status.state = BackendStatusState::Loading("Loading backend...".to_owned());
    }

    fn restore(&mut self, text: String, now: Instant)
        ensures
            final(self)@ == after_failed(old(self)@, text@, now, false),
    {
        if let Some((backend_name, model_name)) = self.previous.take() {
            self.status.backend_name = backend_name;
            self.status.model_name = model_name;
        }
        self.status.state = BackendStatusState::Error(text);
        self.status.error_time = Some(now);
        self.ready = true;
    }

    /// The model could not be found.
    pub fn resolution_failed(&mut self, reason: &str, now: Instant)
        ensures
            final(self)@ == after_failed(
                old(self)@,
                "Model resolution failed: "@ + reason@,
                now,
                true,
            ),
    {
        self.status.download_progress = None;
        self.restore(concat("Model resolution failed: ", reason), now);
    }

    /// The new backend was loaded.
    pub fn backend_loaded(&mut self)
        ensures
            final(self)@ == after_loaded(old(self)@),
    {
        self.status.state = BackendStatusState::Ready;
        self.ready = true;
        self.previous = None;
    }

    /// The new backend could not be loaded.
    pub fn load_failed(&mut self, reason: &str, now: Instant)
        ensures
            final(self)@ == after_failed(old(self)@, "Reload failed: "@ + reason@, now, false),
    {
        self.restore(concat("Reload failed: ", reason), now);
    }

    /// The status of the backend.
    pub fn status(&self) -> (r: &BackendStatus<F>)
        ensures
            r@ == self@.status,
    {
        &self.status
    }

    /// Whether a backend is ready for transcription.
    pub fn is_ready(&self) -> (r: bool)
        ensures
            r == self@.ready,
    {
        self.ready
    }
}

/// A reload that fails, while the model is looked for or while its backend is
/// loaded, leaves the former backend in place: its names are shown and it is
/// ready.
pub proof fn law_failed_reload_keeps_the_backend<F>(
    m: ManagerModel<F>,
    config: BackendConfig,
    model_name: Seq<char>,
    text: Seq<char>,
    now: Instant,
)
    ensures
        ({
            let begun = after_reload_begins(m, config, model_name);
            let unresolved = after_failed(begun, text, now, true);
            let unloaded = after_failed(after_resolved(begun), text, now, false);
            &&& unresolved.status.backend_name == m.status.backend_name
            &&& unresolved.status.model_name == m.status.model_name
            &&& unresolved.ready
            &&& unloaded == unresolved
        }),
{
}

/// A reload that succeeds shows the new names, and is ready.
pub proof fn law_reload_shows_the_new_backend<F>(
    m: ManagerModel<F>,
    config: BackendConfig,
    model_name: Seq<char>,
)
    ensures
        ({
            let done = after_loaded(after_resolved(after_reload_begins(m, config, model_name)));
            &&& done.status.backend_name == display_name(config.backend)
            &&& done.status.model_name == model_name
            &&& done.status.state == BackendStateModel::Ready
            &&& done.ready
        }),
{
}

/// While a reload is under way no backend is ready, the new names are shown, and
/// the progress of an earlier download is not; what comes of it is shown with
/// its reason and time, and nothing of the reload is left behind.
pub proof fn law_reload_is_shown<F>(
    m: ManagerModel<F>,
    config: BackendConfig,
    model_name: Seq<char>,
    text: Seq<char>,
    now: Instant,
)
    ensures
        ({
            let begun = after_reload_begins(m, config, model_name);
            let resolved = after_resolved(begun);
            let failed = after_failed(resolved, text, now, false);
            let loaded = after_loaded(resolved);
            &&& !begun.ready && !resolved.ready
            &&& begun.status.state is Loading && resolved.status.state is Loading
            &&& begun.status.state != resolved.status.state
            &&& begun.status.backend_name == display_name(config.backend)
            &&& resolved.status.backend_name == display_name(config.backend)
            &&& begun.status.model_name == model_name && resolved.status.model_name == model_name
            &&& begun.status.download_progress is None && resolved.status.download_progress is None
            &&& failed.status.state == BackendStateModel::Error(text)
            &&& failed.status.error_time == Some(now)
            &&& failed.status.download_progress is None
            &&& failed.previous is None && loaded.previous is None
            &&& loaded.status.error_time == m.status.error_time
        }),
{
    reveal_strlit("Resolving model...");
    reveal_strlit("Loading backend...");
    assert("Resolving model..."@[0] == 'R');
    assert("Loading backend..."@[0] == 'L');
}

} // verus!

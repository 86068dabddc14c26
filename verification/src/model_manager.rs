//! Bookkeeping for loaded transcription engines.
//!
//! The manager tracks which engine kind is loaded from which model
//! path and when it was last used, and decides when a request can
//! reuse the loaded engine, when the old one must be unloaded first,
//! and when an idle engine should be dropped. Loading and unloading
//! the engines themselves happens with the caller, which owns them.

use vstd::prelude::*;

verus! {

/// The engine kinds the manager distinguishes.
#[derive(Clone, Copy, Debug, PartialEq, Eq, Structural)]
pub enum EngineKind {
    Parakeet,
    Whisper,
}

/// What a load request requires of the caller.
#[derive(Clone, Copy, Debug, PartialEq, Eq, Structural)]
pub enum LoadPlan {
    /// The requested engine is already loaded from this path.
    Reuse,
    /// Nothing is loaded: load the requested model.
    LoadFresh,
    /// Another model or engine kind is loaded: unload it, then load
    /// the requested model.
    UnloadThenLoad,
}

/// How long a loaded engine may sit unused before `unload_if_idle`
/// drops it.
pub const IDLE_TIMEOUT_MS: u64 = 300000;

/// The manager's bookkeeping state.
pub struct ModelManager {
    /// The engine kind and model path currently loaded, if any.
    pub loaded: Option<(EngineKind, String)>,
    pub last_activity_ms: u64,
    pub idle_timeout_ms: u64,
}

impl ModelManager {
    /// A manager with nothing loaded and the reference idle timeout.
    pub fn new(now_ms: u64) -> (r: ModelManager)
        ensures
            r.loaded is None,
            r.last_activity_ms == now_ms,
            r.idle_timeout_ms == IDLE_TIMEOUT_MS,
    {
        ModelManager {
            loaded: Option::None,
            last_activity_ms: now_ms,
            idle_timeout_ms: IDLE_TIMEOUT_MS,
        }
    }

    /// Decide how to satisfy a request for `kind` from `model_path`:
    /// reuse only when exactly that engine kind is loaded from
    /// exactly that path; unload first whenever something else is
    /// loaded.
    pub fn plan_load(&self, kind: EngineKind, model_path: &String) -> (r: LoadPlan)
        ensures
            r == match &self.loaded {
                Option::None => LoadPlan::LoadFresh,
                Option::Some((k, p)) => {
                    if p@ != model_path@ {
                        LoadPlan::UnloadThenLoad
                    } else if *k != kind {
                        LoadPlan::UnloadThenLoad
                    } else {
                        LoadPlan::Reuse
                    }
                },
            },
    {
        match &self.loaded {
            Option::None => LoadPlan::LoadFresh,
            Option::Some((k, p)) => {
                if !p.eq(model_path) {
                    LoadPlan::UnloadThenLoad
                } else if *k != kind {
                    LoadPlan::UnloadThenLoad
                } else {
                    LoadPlan::Reuse
                }
            },
        }
    }

    /// Record that `kind` is now loaded from `model_path`, and that
    /// this counts as activity.
    pub fn note_loaded(&mut self, kind: EngineKind, model_path: String, now_ms: u64)
        ensures
            final(self).loaded matches Some((k, p)) && k == kind && p@ == model_path@,
            final(self).last_activity_ms == now_ms,
            final(self).idle_timeout_ms == old(self).idle_timeout_ms,
    {
        self.loaded = Option::Some((kind, model_path));
        self.last_activity_ms = now_ms;
    }

    /// Record a use of the loaded engine.
    pub fn note_activity(&mut self, now_ms: u64)
        ensures
            final(self).loaded == old(self).loaded,
            final(self).last_activity_ms == now_ms,
            final(self).idle_timeout_ms == old(self).idle_timeout_ms,
    {
        self.last_activity_ms = now_ms;
    }

    /// Record that the engine was unloaded.
    pub fn note_unloaded(&mut self)
        ensures
            final(self).loaded is None,
            final(self).last_activity_ms == old(self).last_activity_ms,
            final(self).idle_timeout_ms == old(self).idle_timeout_ms,
    {
        self.loaded = Option::None;
    }

    /// Whether the loaded engine has sat idle beyond the timeout and
    /// should be unloaded now.
    pub fn should_unload_idle(&self, now_ms: u64) -> (r: bool)
        requires
            self.last_activity_ms <= now_ms,
        ensures
            r == (self.loaded is Some && now_ms - self.last_activity_ms > self.idle_timeout_ms),
    {
        self.loaded.is_some() && now_ms - self.last_activity_ms > self.idle_timeout_ms
    }
}

} // verus!

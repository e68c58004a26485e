//! Startup configuration policy for the Linux GUI shell.
//!
//! At process start, and only on Linux, the application adjusts two
//! environment variables before handing control to the GUI host runtime:
//! it disables a GPU-buffer rendering path of the web view, and, when
//! running as a portable application bundle under a Wayland session, it
//! forces the windowing backend to X11. Both are defaults only: a value
//! the user has already set is never overridden.
//!
//! The decision itself is pure, so it lives here: the caller snapshots the
//! relevant environment variables into [`EnvSettings`], and applies the
//! returned [`BootstrapPlan`] to the process environment.

use vstd::prelude::*;

verus! {

/// Snapshot of the environment variables the bootstrap step consults.
/// Each field is `None` when the variable is unset.
pub struct EnvSettings {
    /// The flag that disables the web view's GPU-buffer rendering path.
    pub dmabuf_renderer_disable: Option<String>,
    /// The Wayland display socket name, set when a Wayland display is reachable.
    pub wayland_display: Option<String>,
    /// The desktop session type reported by the session manager.
    pub session_type: Option<String>,
    /// Set when the process runs from a self-contained portable bundle.
    pub appimage: Option<String>,
    /// The user's explicit choice of windowing backend, if any.
    pub gdk_backend: Option<String>,
}

/// What the bootstrap step should change in the process environment.
pub struct BootstrapPlan {
    /// Set the GPU-buffer rendering disable flag (to its default value).
    pub disable_dmabuf_renderer: bool,
    /// Force the windowing backend to the legacy X11 protocol.
    pub force_x11_backend: bool,
}

/// The process runs under a Wayland display session: either a Wayland
/// display is reachable, or the session manager reports a Wayland session.
pub open spec fn is_wayland_session(env: EnvSettings) -> bool {
    env.wayland_display is Some || match env.session_type {
        Some(s) => s@ == "wayland"@,
        None => false,
    }
}

/// Decide which environment defaults to apply at startup.
///
/// The rendering flag is set only when the user has not set it already;
/// the backend is forced to X11 only for a portable bundle running under
/// Wayland whose user has not chosen a backend — user settings always
/// take precedence over these defaults.
pub fn plan_bootstrap(env: &EnvSettings) -> (plan: BootstrapPlan)
    ensures
        plan.disable_dmabuf_renderer <==> env.dmabuf_renderer_disable is None,
        plan.force_x11_backend <==> (env.appimage is Some && is_wayland_session(*env)
            && env.gdk_backend is None),
{
    let wayland_marker: String = "wayland".to_owned();
    let is_wayland: bool = env.wayland_display.is_some() || match &env.session_type {
        Some(s) => *s == wayland_marker,
        None => false,
    };
    BootstrapPlan {
        disable_dmabuf_renderer: env.dmabuf_renderer_disable.is_none(),
        force_x11_backend: env.appimage.is_some() && is_wayland && env.gdk_backend.is_none(),
    }
}

} // verus!

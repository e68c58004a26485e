use crash_reports::bootstrap::{plan_bootstrap, EnvSettings};

fn unset_env() -> EnvSettings {
    EnvSettings {
        dmabuf_renderer_disable: None,
        wayland_display: None,
        session_type: None,
        appimage: None,
        gdk_backend: None,
    }
}

#[test]
fn bare_environment_only_disables_renderer() {
    let plan = plan_bootstrap(&unset_env());
    assert!(plan.disable_dmabuf_renderer);
    assert!(!plan.force_x11_backend);
}

#[test]
fn user_renderer_setting_is_kept() {
    let mut env = unset_env();
    env.dmabuf_renderer_disable = Some("0".to_string());
    let plan = plan_bootstrap(&env);
    assert!(!plan.disable_dmabuf_renderer);
}

#[test]
fn appimage_under_wayland_display_forces_x11() {
    let mut env = unset_env();
    env.wayland_display = Some("wayland-0".to_string());
    env.appimage = Some("/opt/app.AppImage".to_string());
    let plan = plan_bootstrap(&env);
    assert!(plan.force_x11_backend);
}

#[test]
fn appimage_under_wayland_session_type_forces_x11() {
    let mut env = unset_env();
    env.session_type = Some("wayland".to_string());
    env.appimage = Some("/opt/app.AppImage".to_string());
    let plan = plan_bootstrap(&env);
    assert!(plan.force_x11_backend);
}

#[test]
fn x11_session_type_does_not_force_backend() {
    let mut env = unset_env();
    env.session_type = Some("x11".to_string());
    env.appimage = Some("/opt/app.AppImage".to_string());
    let plan = plan_bootstrap(&env);
    assert!(!plan.force_x11_backend);
}

#[test]
fn wayland_without_appimage_does_not_force_backend() {
    let mut env = unset_env();
    env.wayland_display = Some("wayland-0".to_string());
    let plan = plan_bootstrap(&env);
    assert!(!plan.force_x11_backend);
}

#[test]
fn user_backend_choice_is_kept() {
    let mut env = unset_env();
    env.wayland_display = Some("wayland-0".to_string());
    env.session_type = Some("wayland".to_string());
    env.appimage = Some("/opt/app.AppImage".to_string());
    env.gdk_backend = Some("wayland".to_string());
    let plan = plan_bootstrap(&env);
    assert!(!plan.force_x11_backend);
}

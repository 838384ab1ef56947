use rust_motd::config::{default_progress_width, default_time_format, GlobalConfig};
use rust_motd::constants::{GlobalSettings, INDENT_WIDTH};
use rust_motd::widgets::{
    default_timeout, ComposeStack, Docker, DockerCompose, DockerComposeStyle, DockerContainer,
    SortMethod, SwapPosition, DEFAULT_SOCKET,
};

#[test]
fn global_config_defaults() {
    let g = GlobalConfig::default();
    assert!(g.version.is_none());
    assert_eq!(g.progress_full_character, "=");
    assert_eq!(g.progress_empty_character, "=");
    assert_eq!(g.progress_prefix, "[");
    assert_eq!(g.progress_suffix, "]");
    assert_eq!(g.progress_width, 80);
    assert_eq!(g.time_format, "%Y-%m-%d %H:%M:%S %Z");
    assert!(g.show_legacy_warning);
    assert_eq!(default_progress_width(), 80);
    assert_eq!(default_time_format(), "%Y-%m-%d %H:%M:%S %Z");
}

#[test]
fn global_settings_defaults() {
    let s = GlobalSettings::default();
    assert_eq!(s.progress_full_character, '=');
    assert_eq!(s.progress_empty_character, '=');
    assert_eq!(s.progress_prefix, "[");
    assert_eq!(s.progress_suffix, "]");
    assert_eq!(INDENT_WIDTH, 2);
}

#[test]
fn docker_widgets_take_defaults() {
    let d = Docker::new(vec![DockerContainer {
        docker_name: String::from("/web"),
        display_name: String::from("Web"),
    }]);
    assert_eq!(d.title, "Docker");
    assert_eq!(d.socket, DEFAULT_SOCKET);
    assert_eq!(d.containers.len(), 1);
    assert_eq!(d.containers[0].display_name, "Web");
    let c = DockerCompose::new(vec![ComposeStack {
        path: String::from("~/app"),
        display_name: String::from("App"),
    }]);
    assert_eq!(c.title, "Docker Compose");
    assert_eq!(c.socket, "unix:///var/run/docker.sock");
    assert_eq!(c.style, DockerComposeStyle::Count);
    assert_eq!(c.stacks[0].path, "~/app");
}

#[test]
fn other_widget_defaults() {
    assert_eq!(default_timeout(), 5);
    assert_eq!(DockerComposeStyle::default(), DockerComposeStyle::Count);
    assert_eq!(SwapPosition::default(), SwapPosition::Beside);
    assert_eq!(SortMethod::default(), SortMethod::Manual);
}

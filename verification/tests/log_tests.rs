use bevy_editor::editor::ConsoleFilter;
use bevy_editor::log_layer::{format_uptime_millis, push_line, LogLevel, LogLine, MAX_LINES};
use bevy_editor::ui::{console_line_text, console_shows};

fn line(level: LogLevel, target: &str, message: &str) -> LogLine {
    LogLine {
        time: "00:01.234".to_string(),
        level,
        target: target.to_string(),
        message: message.to_string(),
    }
}

#[test]
fn target_short_takes_last_segment() {
    let l = line(LogLevel::Info, "bevy_render::camera", "x");
    assert_eq!(l.target_short(), "camera");
}

#[test]
fn target_short_without_separator_keeps_all() {
    let l = line(LogLevel::Info, "wgpu", "x");
    assert_eq!(l.target_short(), "wgpu");
}

#[test]
fn target_short_cuts_to_eighteen_chars() {
    let l = line(LogLevel::Info, "a::abcdefghijklmnopqrstuvwxyz", "x");
    assert_eq!(l.target_short(), "abcdefghijklmnopqr");
}

#[test]
fn target_short_trailing_separator_is_empty() {
    let l = line(LogLevel::Info, "a::", "x");
    assert_eq!(l.target_short(), "");
}

#[test]
fn target_short_three_colons() {
    let l = line(LogLevel::Info, "a:::b", "x");
    assert_eq!(l.target_short(), "b");
}

#[test]
fn target_short_single_colon_is_not_a_separator() {
    let l = line(LogLevel::Info, "a:b", "x");
    assert_eq!(l.target_short(), "a:b");
}

#[test]
fn uptime_zero() {
    assert_eq!(format_uptime_millis(0), "00:00.000");
}

#[test]
fn uptime_exact_value() {
    // 1 h 2 min 3.045 s: minutes wrap at 60.
    let ms: u128 = 3_600_000 + 2 * 60_000 + 3_045;
    assert_eq!(format_uptime_millis(ms), "02:03.045");
}

#[test]
fn uptime_large_value() {
    assert_eq!(format_uptime_millis(59 * 60_000 + 59_999), "59:59.999");
}

#[test]
fn push_line_keeps_newest() {
    let mut lines = Vec::new();
    for i in 0..(MAX_LINES + 5) {
        push_line(&mut lines, line(LogLevel::Info, "t", &i.to_string()));
        assert!(lines.len() <= MAX_LINES);
    }
    assert_eq!(lines.len(), MAX_LINES);
    assert_eq!(lines[0].message, "5");
    assert_eq!(lines[MAX_LINES - 1].message, (MAX_LINES + 4).to_string());
}

#[test]
fn push_line_below_cap_keeps_all() {
    let mut lines = Vec::new();
    push_line(&mut lines, line(LogLevel::Warn, "t", "a"));
    push_line(&mut lines, line(LogLevel::Warn, "t", "b"));
    assert_eq!(lines.len(), 2);
    assert_eq!(lines[0].message, "a");
    assert_eq!(lines[1].message, "b");
}

#[test]
fn console_text_pads_short_target() {
    let l = line(LogLevel::Info, "bevy::app", "hello");
    assert_eq!(console_line_text(&l), "00:01.234 [  app] hello");
}

#[test]
fn console_text_long_target_not_cut_to_five() {
    let l = line(LogLevel::Info, "bevy::renderer", "hi");
    assert_eq!(console_line_text(&l), "00:01.234 [renderer] hi");
}

#[test]
fn console_filter_levels() {
    let mut f = ConsoleFilter::default();
    let err = line(LogLevel::Error, "t", "boom");
    let warn = line(LogLevel::Warn, "t", "careful");
    let debug = line(LogLevel::Debug, "t", "detail");
    assert!(console_shows(&f, &err));
    f.error = false;
    assert!(!console_shows(&f, &err));
    assert!(console_shows(&f, &warn));
    f.info = false;
    assert!(!console_shows(&f, &debug));
}

#[test]
fn console_filter_search_is_case_insensitive() {
    let mut f = ConsoleFilter::default();
    f.search = "SCENE".to_string();
    assert!(console_shows(&f, &line(LogLevel::Info, "t", "Scene loaded")));
    assert!(console_shows(&f, &line(LogLevel::Info, "bevy_scene::x", "other")));
    assert!(!console_shows(&f, &line(LogLevel::Info, "t", "nothing")));
}

#[test]
fn uptime_of_duration() {
    let d = std::time::Duration::from_millis(61_007);
    assert_eq!(bevy_editor::log_layer::format_uptime(d), "01:01.007");
}

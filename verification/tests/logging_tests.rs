use rgb_log::Log;
use rgb_log::ProgramName;
use rgb_log::log::Print;
use rgb_log::log::Timestamp;
use rgb_log::log::humanize_timestamp;
use rgb_log::padding::to_pad_map_left;

#[test]
fn log_default_to_pad_map_left() {
    let labels = vec!["INFO".to_string(), "ERROR".to_string()];
    let mut v: Vec<(String, usize)> = to_pad_map_left(&labels).1;
    v.sort_by(|(a, _), (b, _)| a.cmp(b));

    let expected = vec![("ERROR".to_string(), 0), ("INFO".to_string(), 1)];

    assert_eq!(v, expected);
}

fn plain_levels() -> Vec<String> {
    Vec::new()
}

#[test]
fn registered_submodules_share_one_column() {
    let log = Log::new(
        None::<()>,
        None,
        vec!["a".to_string(), "bbb".to_string()],
        Vec::new(),
    );
    let line_a = Print::new(
        &log,
        (Some("a".to_string()), Some("INFO".to_string()), Some("hi")),
    )
    .into_line();
    let line_b = Print::new(
        &log,
        (Some("bbb".to_string()), Some("INFO".to_string()), Some("hi")),
    )
    .into_line();
    assert_eq!(line_a, "[  a] INFO: hi\r\n");
    assert_eq!(line_b, "[bbb] INFO: hi\r\n");
    let close_a = line_a.find(']').unwrap();
    let close_b = line_b.find(']').unwrap();
    assert_eq!(close_a, close_b);
}

#[test]
fn unregistered_submodule_renders_bare_on_default_log() {
    let log = Log::builder()
        .with_program_name(ProgramName::Disable)
        .with_levels(plain_levels())
        .build(None);
    let line = Print::new(
        &log,
        (Some("xyz".to_string()), Some("INFO".to_string()), Some("hi")),
    )
    .into_line();
    assert_eq!(line, "[xyz] INFO: hi\r\n");
    assert!(line.starts_with("[xyz]"));
}

#[test]
fn default_levels_render_colored() {
    crossterm::style::Colored::set_ansi_color_disabled(false);
    let log = Log::builder()
        .with_program_name(ProgramName::Disable)
        .build(None);
    let line = Print::new(&log, (None, Some("ERROR".to_string()), Some("x"))).into_line();
    assert_eq!(line, " \u{1b}[38;5;9mERROR\u{1b}[39m: x\r\n");
    let info = Print::new(&log, (None, Some("INFO".to_string()), Some("x"))).into_line();
    assert_eq!(info, "  \u{1b}[38;5;12mINFO\u{1b}[39m: x\r\n");
}

#[test]
fn program_name_appears_in_prefix() {
    let log = Log::builder()
        .with_program_name(ProgramName::from_name("myapp"))
        .with_levels(plain_levels())
        .build(None);
    let line = Print::new(&log, (None, Some("INFO".to_string()), Some("hi"))).into_line();
    assert_eq!(line, "[myapp]  INFO: hi\r\n");
}

#[test]
fn program_name_with_submodule_shares_brackets() {
    let log = Log::builder()
        .with_program_name(ProgramName::from_name("app"))
        .with_submodule_names(vec!["net".to_string()])
        .with_levels(plain_levels())
        .build(None);
    let line = Print::new(
        &log,
        (Some("net".to_string()), Some("OK".to_string()), Some("up")),
    )
    .into_line();
    assert_eq!(line, "[app net] OK: up\r\n");
}

#[test]
fn sentinel_names_select_the_build_identifier() {
    assert!(matches!(
        ProgramName::from_name("CRATE_NAME"),
        ProgramName::CrateName
    ));
    assert!(matches!(
        ProgramName::from_name("PKG_NAME"),
        ProgramName::CrateName
    ));
    assert!(matches!(
        ProgramName::from_name("CARGO_PKG_NAME"),
        ProgramName::CrateName
    ));
    match ProgramName::from_name("other") {
        ProgramName::Custom(s) => assert_eq!(s, "other"),
        _ => panic!("expected a custom name"),
    }
    assert_eq!(
        ProgramName::CrateName.try_to_string(Some("pkg".to_string())),
        Some("pkg".to_string())
    );
    assert_eq!(ProgramName::CrateName.try_to_string(None), None);
    assert_eq!(
        ProgramName::Custom("n".to_string()).try_to_string(Some("pkg".to_string())),
        Some("n".to_string())
    );
    assert_eq!(ProgramName::Disable.try_to_string(Some("pkg".to_string())), None);
}

#[test]
fn crate_name_policy_uses_the_snapshot() {
    let log = Log::builder()
        .with_program_name(ProgramName::from_name("CRATE_NAME"))
        .with_levels(plain_levels())
        .build(Some("pkg".to_string()));
    let line = Print::new(&log, (None, Some("INFO".to_string()), Some("hi"))).into_line();
    assert_eq!(line, "[pkg]  INFO: hi\r\n");
}

#[test]
fn missing_level_falls_back_to_debug() {
    let log = Log::builder()
        .with_program_name(ProgramName::Disable)
        .with_levels(plain_levels())
        .build(None);
    let line = Print::new(&log, (None, None, Some("hi".to_string()))).into_line();
    assert_eq!(line, " DEBUG: hi\r\n");
}

#[test]
fn missing_content_renders_empty() {
    let log = Log::builder()
        .with_program_name(ProgramName::Disable)
        .with_levels(plain_levels())
        .build(None);
    let line = Print::<Option<()>, &str>::new(&log, (None, Some("INFO".to_string()), None)).into_line();
    assert_eq!(line, " INFO: \r\n");
}

#[test]
fn print_setters_accumulate() {
    let log = Log::builder()
        .with_program_name(ProgramName::Disable)
        .with_levels(plain_levels())
        .build(None);
    let line = Print::new(&log, (None, None, None))
        .submod("db".to_string())
        .level("OK".to_string())
        .content("done")
        .into_line();
    assert_eq!(line, "[db] OK: done\r\n");
}

#[test]
fn timestamped_line_ends_with_the_plain_line() {
    let log = Log::builder()
        .with_program_name(ProgramName::Disable)
        .with_levels(plain_levels())
        .with_timestamp(Timestamp::Seconds)
        .build(None);
    let line = Print::new(&log, (None, Some("INFO".to_string()), Some("hi"))).into_line();
    assert!(line.ends_with(" INFO: hi\r\n"));
    let ts_len = line.len() - " INFO: hi\r\n".len() - 1;
    assert_eq!(ts_len, 19);
    let ts = &line[..ts_len];
    assert!(!ts.contains('T'));
    assert!(!ts.contains('Z'));
    assert!(ts
        .chars()
        .all(|c| c.is_ascii_digit() || c == '-' || c == ':' || c == ' '));
}

#[test]
fn humanize_rewrites_t_and_z() {
    assert_eq!(
        humanize_timestamp("2020-01-02T03:04:05Z"),
        "2020-01-02 03:04:05"
    );
    assert_eq!(humanize_timestamp(""), "");
    assert_eq!(humanize_timestamp("TZ"), " ");
}

#[test]
fn submodule_handle_shares_the_log() {
    let log = Log::new(
        None::<()>,
        Some("app".to_string()),
        vec!["net".to_string()],
        Vec::new(),
    );
    let handle = log.submodule("net".to_string());
    handle.info("hello");
    handle.ok("hello");
    handle.error("hello");
    handle.debug("hello");
    log.info("hello");
    log.ok("hello");
    log.error("hello");
    log.debug("hello");
}

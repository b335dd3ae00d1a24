use rcurl::cli::Cli;
use rcurl::history;
use rcurl::history::command;
use rcurl::history::dirs::get_history_dir;
use rcurl::history::storage::{get_history_file_path, history_commands, strip_for_save, upsert_entry};
use rcurl::history::types::HistoryEntry;

fn sample_cli() -> Cli {
    let mut cli = Cli::new();
    cli.url = Some("https://example.com/".to_string());
    cli.method_option = Some("POST".to_string());
    cli.body_option = Some("it's data".to_string());
    cli.skip_certificate_validate = true;
    cli.verbosity = 2;
    cli
}

#[test]
fn command_line_is_rebuilt_in_fixed_order() {
    let cmd = command::command_from_cli(&sample_cli());
    assert_eq!(
        cmd,
        "rcurl -X POST -d 'it'\\''s data' -k -v -v https://example.com/"
    );
}

#[test]
fn short_form_omits_proxy_and_timing_switches() {
    let mut cli = sample_cli();
    cli.noproxy = true;
    cli.time = true;
    let long = command::command_from_cli(&cli);
    assert_eq!(
        long,
        "rcurl -X POST -d 'it'\\''s data' -k -v -v --noproxy --time https://example.com/"
    );
    let short = history::command_from_cli(&cli);
    assert_eq!(
        short,
        "rcurl -X POST -d 'it'\\''s data' -k -v -v https://example.com/"
    );
}

#[test]
fn list_flags_repeat_per_entry() {
    let mut cli = Cli::new();
    cli.url = Some("http://h/".to_string());
    cli.headers = vec!["A: 1".to_string(), "B: 2".to_string()];
    cli.form_option = vec!["x=y".to_string()];
    let cmd = command::command_from_cli(&cli);
    assert_eq!(cmd, "rcurl -F 'x=y' -H 'A: 1' -H 'B: 2' http://h/");
}

#[test]
fn bare_invocation_is_just_the_name() {
    assert_eq!(command::command_from_cli(&Cli::new()), "rcurl");
}

#[test]
fn history_paths_hang_off_the_home_directory() {
    assert_eq!(get_history_dir(Some("/home/u")), "/home/u/.rcurl");
    assert_eq!(get_history_dir(None), "./.rcurl");
    assert_eq!(get_history_file_path(Some("/home/u")), "/home/u/.rcurl/rcurl.req");
}

fn entry(cmd: &str) -> HistoryEntry {
    HistoryEntry { command: cmd.to_string(), cli: None }
}

#[test]
fn upsert_moves_the_command_to_the_front_and_dedups() {
    let history = vec![entry("rcurl a"), entry("rcurl b"), entry("rcurl a")];
    let updated = upsert_entry(history, "rcurl a", Cli::new());
    let commands: Vec<String> = history_commands(&updated);
    assert_eq!(commands, vec!["rcurl a", "rcurl b"]);
    assert!(updated[0].cli.is_some());
}

#[test]
fn upsert_keeps_other_commands_in_order() {
    let history = vec![entry("one"), entry("two"), entry("three")];
    let updated = upsert_entry(history, "new", Cli::new());
    let commands: Vec<String> = history_commands(&updated);
    assert_eq!(commands, vec!["new", "one", "two", "three"]);
}

#[test]
fn saved_records_drop_the_intent() {
    let history = vec![
        HistoryEntry { command: "a".to_string(), cli: Some(Cli::new()) },
        HistoryEntry { command: "b".to_string(), cli: None },
    ];
    let saved = strip_for_save(&history);
    assert_eq!(saved.len(), 2);
    assert!(saved.iter().all(|e| e.cli.is_none()));
    assert_eq!(saved[0].command, "a");
    assert_eq!(saved[1].command, "b");
}

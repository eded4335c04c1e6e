use wtf::history::HistoryEntry;
use wtf::listing::{show_history, shown_command, shown_time, COMMAND_WIDTH, CUT_WIDTH, LISTED};

fn entry(timestamp: i64, prompt: &str, command: &str) -> HistoryEntry {
    HistoryEntry {
        timestamp,
        prompt: prompt.to_string(),
        command: command.to_string(),
    }
}

#[test]
fn listing_constants() {
    assert_eq!(LISTED, 20);
    assert_eq!(COMMAND_WIDTH, 80);
    assert_eq!(CUT_WIDTH, 77);
}

#[test]
fn shown_time_writes_date_and_minute() {
    assert_eq!(shown_time(0), "1970-01-01 00:00");
    assert_eq!(shown_time(59), "1970-01-01 00:00");
    assert_eq!(shown_time(60), "1970-01-01 00:01");
    assert_eq!(shown_time(1_431_648_000), "2015-05-15 00:00");
    assert_eq!(shown_time(1_700_000_000), "2023-11-14 22:13");
    assert_eq!(shown_time(-1), "1969-12-31 23:59");
}

#[test]
fn shown_time_of_an_unwritable_time_is_the_present() {
    let text = shown_time(i64::MAX);
    assert_eq!(text.len(), 16);
    assert!(text.starts_with("20"));
}

#[test]
fn shown_command_leaves_a_short_command() {
    assert_eq!(shown_command("ls -la"), "ls -la");
    assert_eq!(shown_command(""), "");
    let eighty = "x".repeat(80);
    assert_eq!(shown_command(&eighty), eighty);
}

#[test]
fn shown_command_cuts_a_long_command() {
    let long = "y".repeat(81);
    assert_eq!(shown_command(&long), format!("{}...", "y".repeat(77)));
    let longer: String = ('a'..='z').cycle().take(200).collect();
    assert_eq!(shown_command(&longer), format!("{}...", &longer[..77]));
}

#[test]
fn shown_command_counts_bytes() {
    let wide = "\u{e9}".repeat(41);
    assert_eq!(wide.len(), 82);
    assert_eq!(shown_command(&wide), format!("{}...", "\u{e9}".repeat(38)));
    let narrow = "\u{e9}".repeat(40);
    assert_eq!(shown_command(&narrow), narrow);
}

#[test]
fn shown_command_cuts_between_characters() {
    let mixed = format!("{}{}", "a".repeat(76), "\u{1F4A1}".repeat(3));
    assert_eq!(mixed.len(), 88);
    assert_eq!(shown_command(&mixed), format!("{}...", "a".repeat(76)));
    let aligned = format!("{}{}", "a".repeat(77), "\u{1F4A1}".repeat(3));
    assert_eq!(shown_command(&aligned), format!("{}...", "a".repeat(77)));
}

#[test]
fn listing_of_an_empty_log() {
    let l = show_history(Vec::new());
    assert_eq!(l.total, 0);
    assert!(l.rows.is_empty());
}

#[test]
fn listing_numbers_rows_by_their_place_in_the_log() {
    let entries: Vec<HistoryEntry> =
        (0..25).map(|i| entry(60 * i, &format!("ask {}", i), &format!("cmd {}", i))).collect();
    let l = show_history(entries);
    assert_eq!(l.total, 25);
    assert_eq!(l.rows.len(), 20);
    assert_eq!(l.rows[0].number, 6);
    assert_eq!(l.rows[0].prompt, "ask 5");
    assert_eq!(l.rows[0].command, "cmd 5");
    assert_eq!(l.rows[0].time, "1970-01-01 00:05");
    assert_eq!(l.rows[0].full, None);
    assert_eq!(l.rows[19].number, 25);
    assert_eq!(l.rows[19].prompt, "ask 24");
    assert_eq!(l.rows[19].time, "1970-01-01 00:24");
}

#[test]
fn listing_of_a_short_log_shows_all() {
    let l = show_history(vec![entry(0, "a", "b"), entry(86_400, "c", "d")]);
    assert_eq!(l.total, 2);
    assert_eq!(l.rows.len(), 2);
    assert_eq!(l.rows[0].number, 1);
    assert_eq!(l.rows[1].number, 2);
    assert_eq!(l.rows[1].time, "1970-01-02 00:00");
}

#[test]
fn listing_keeps_the_whole_of_a_cut_command() {
    let long = "z".repeat(100);
    let l = show_history(vec![entry(0, "long one", &long)]);
    assert_eq!(l.rows[0].command, format!("{}...", "z".repeat(77)));
    assert_eq!(l.rows[0].full, Some(long));
}

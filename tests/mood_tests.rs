use dayboard::chart::{chart_window, placeholder_text, Chart};
use dayboard::export::{export_status, ExportOutcome, MAX_LINE_CHARS};
use dayboard::export::wrap_chars;
use dayboard::mood::{day_of_stamp, mood_color, mood_name, MoodBook, MoodSession, PromptClock};

#[test]
fn same_day_twice_keeps_second_value_and_both_entries() {
    let mut b = MoodBook::new();
    b.set_today(1, "2024-03-01 09:00:00".to_string(), "2024-03-01".to_string());
    b.set_today(4, "2024-03-01 18:30:00".to_string(), "2024-03-01".to_string());
    assert_eq!(b.history, vec![("2024-03-01".to_string(), 4)]);
    assert_eq!(
        b.entries,
        vec![("2024-03-01 09:00:00".to_string(), 1), ("2024-03-01 18:30:00".to_string(), 4)]
    );
}

#[test]
fn new_day_appends_rollup() {
    let mut b = MoodBook::new();
    b.set_today(2, "t1".to_string(), "2024-03-01".to_string());
    b.set_today(3, "t2".to_string(), "2024-03-02".to_string());
    b.set_today(0, "t3".to_string(), "2024-03-01".to_string());
    assert_eq!(b.history, vec![("2024-03-01".to_string(), 0), ("2024-03-02".to_string(), 3)]);
}

#[test]
fn record_now_grows_log_by_one() {
    let mut b = MoodBook::new();
    b.record_now(3);
    assert_eq!(b.entries.len(), 1);
    assert_eq!(b.entries[0].1, 3);
    assert_eq!(b.history.len(), 1);
    assert_eq!(b.history[0].1, 3);
    assert_eq!(b.history[0].0.len(), 10);
    assert!(b.entries[0].0.starts_with(&b.history[0].0));
}

#[test]
fn day_of_stamp_takes_text_before_first_space() {
    assert_eq!(day_of_stamp(&"2024-03-01 09:00:00".to_string()), "2024-03-01");
    assert_eq!(day_of_stamp(&"2024-03-01".to_string()), "2024-03-01");
    assert_eq!(day_of_stamp(&" x".to_string()), "");
}

#[test]
fn empty_chart_is_placeholder() {
    assert!(matches!(chart_window(&vec![]), Chart::Placeholder));
    assert_eq!(placeholder_text(), "No data yet \u{2014} log a mood!");
}

#[test]
fn chart_uses_last_fourteen_days_in_date_order() {
    let mut b = MoodBook::new();
    for d in (1..=20).rev() {
        b.history.push((format!("2024-05-{:02}", d), d % 5));
    }
    b.sort_history();
    match chart_window(&b.history) {
        Chart::Bars(bars) => {
            assert_eq!(bars.len(), 14);
            for (k, (day, mood)) in bars.iter().enumerate() {
                let d = k as i32 + 7;
                assert_eq!(day, &format!("2024-05-{:02}", d));
                assert_eq!(*mood, d % 5);
            }
        }
        Chart::Placeholder => panic!("expected bars"),
    }
}

#[test]
fn short_history_charts_whole() {
    let h = vec![("2024-01-01".to_string(), 2), ("2024-01-02".to_string(), 3)];
    match chart_window(&h) {
        Chart::Bars(bars) => assert_eq!(bars, h),
        Chart::Placeholder => panic!("expected bars"),
    }
}

#[test]
fn mood_names_and_colors() {
    assert_eq!(mood_name(4), "Happy");
    assert_eq!(mood_name(3), "Good");
    assert_eq!(mood_name(2), "Okay");
    assert_eq!(mood_name(1), "Sad");
    assert_eq!(mood_name(0), "Angry");
    assert_eq!(mood_name(9), "Angry");
    assert_eq!(mood_color(4), (90, 220, 120));
    assert_eq!(mood_color(0), (230, 120, 120));
}

#[test]
fn session_text_lists_every_pick() {
    let mut b = MoodBook::new();
    b.set_today(4, "2024-03-01 09:00:00".to_string(), "2024-03-01".to_string());
    b.set_today(1, "2024-03-01 10:00:00".to_string(), "2024-03-01".to_string());
    assert_eq!(
        b.build_session_text(),
        "Mood Tracker \u{2014} Session Log\n----------------------------------------\n\
2024-03-01 09:00:00 \u{2014} Happy\n2024-03-01 10:00:00 \u{2014} Sad\n"
    );
}

#[test]
fn prompt_fires_once_then_reschedules() {
    let mut c = PromptClock::new(1000);
    assert_eq!(c.next_due_ms, 6000);
    assert!(!c.tick(5999));
    assert!(c.tick(20000));
    assert_eq!(c.next_due_ms, 25000);
    assert!(!c.tick(24000));
    let mut s = MoodSession::new(MoodBook::new(), 0);
    s.on_frame(4999);
    assert!(!s.show_prompt);
    s.on_frame(5000);
    assert!(s.show_prompt);
    assert_eq!(s.clock.next_due_ms, 10000);
    s.show_prompt = false;
    s.on_frame(9000);
    assert!(!s.show_prompt);
    assert_eq!(s.clock.next_due_ms, 10000);
    s.pick_at(2, "t".to_string(), "d".to_string());
    assert!(!s.show_prompt);
    assert!(s.take_dirty());
    assert!(!s.take_dirty());
}

#[test]
fn wrap_cuts_by_characters() {
    let line: String = "\u{2014}".repeat(150);
    let parts = wrap_chars(&line, MAX_LINE_CHARS);
    assert_eq!(parts.len(), 3);
    assert_eq!(parts[0].chars().count(), 72);
    assert_eq!(parts[2].chars().count(), 6);
    assert_eq!(wrap_chars("", 72), vec![String::new()]);
    assert_eq!(wrap_chars("abc", 3), vec!["abc".to_string()]);
}

#[test]
fn pdf_layout_breaks_page_after_forty_lines() {
    let mut b = MoodBook::new();
    for i in 0..45 {
        b.entries.push((format!("2024-01-01 00:00:{:02}", i), 2));
    }
    let placed = b.pdf_layout();
    assert_eq!(placed.len(), 45);
    assert_eq!(placed[0].y_mm, 266);
    assert!(!placed[0].new_page);
    assert_eq!(placed[39].y_mm, 32);
    assert!(placed[40].new_page);
    assert_eq!(placed[40].y_mm, 282);
    assert_eq!(placed[41].y_mm, 276);
    assert_eq!(placed[0].text, "2024-01-01 00:00:00 \u{2014} Okay");
}

#[test]
fn export_status_lines_differ_by_failure() {
    assert_eq!(export_status(ExportOutcome::NoEntries), "No entries to save yet.");
    assert_eq!(export_status(ExportOutcome::NoFont), "PDF export cancelled (no font selected).");
    assert_eq!(export_status(ExportOutcome::Cancelled), "PDF export cancelled.");
    assert_eq!(export_status(ExportOutcome::FontUnreadable("e1".into())), "Failed to open font: e1");
    assert_eq!(export_status(ExportOutcome::FontInvalid("e2".into())), "Failed to load font: e2");
    assert_eq!(export_status(ExportOutcome::PdfWriteFailed("e3".into())), "Failed to save PDF: e3");
    assert_eq!(export_status(ExportOutcome::TextWriteFailed("e4".into())), "Failed to save TXT: e4");
    assert_eq!(export_status(ExportOutcome::Saved("/tmp/x.pdf".into())), "Saved: /tmp/x.pdf");
}

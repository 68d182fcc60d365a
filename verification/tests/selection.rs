use autocommiter::gitmoji::calculate_fuzzy_score;
use autocommiter::gitmoji::find_best_gitmoji;
use autocommiter::gitmoji::get_gitmojified_message;
use autocommiter::gitmoji::get_random_gitmoji;
use autocommiter::gitmoji::gitmoji_table;
use autocommiter::gitmoji::prepend_gitmoji;
use autocommiter::gitmoji::table_entry;
use autocommiter::gitmoji::Gitmoji;

#[test]
fn table_has_twenty_five_entries() {
    let table = gitmoji_table();
    assert_eq!(table.len(), 25);
    assert_eq!(table[0].code, ":art:");
    assert_eq!(table[3].code, ":bug:");
    assert_eq!(table[24].code, ":whale:");
}

#[test]
fn scores_stay_within_bounds() {
    let table = gitmoji_table();
    let messages = ["", "fix bug fix bug fix bug error crash issue", "nothing relevant at all", "update upgrade dependency dependencies package npm"];
    for msg in messages {
        for entry in &table {
            let score = calculate_fuzzy_score(msg, entry);
            assert!(score <= 100);
        }
    }
}

#[test]
fn exact_keyword_scores_at_least_forty() {
    let bug = table_entry(3);
    assert!(calculate_fuzzy_score("crash on startup", &bug) >= 40);
    let zap = table_entry(1);
    assert!(calculate_fuzzy_score("improve performance of parser", &zap) >= 40);
}

#[test]
fn fix_crash_message_picks_the_bug_entry() {
    // "crash" is a keyword (+40) and "fix" a description word (+15)
    let best = find_best_gitmoji("fix crash on startup").expect("a match above threshold");
    assert_eq!(best.code, ":bug:");
}

#[test]
fn uppercase_message_is_lowercased_before_matching() {
    let best = find_best_gitmoji("FIX CRASH ON STARTUP").expect("a match above threshold");
    assert_eq!(best.code, ":bug:");
}

#[test]
fn blank_message_has_no_confident_match() {
    assert!(find_best_gitmoji("").is_none());
    assert!(find_best_gitmoji("   \t\n").is_none());
}

#[test]
fn unrelated_message_has_no_confident_match() {
    assert!(find_best_gitmoji("zzz qqq").is_none());
}

#[test]
fn random_entry_comes_from_the_table() {
    let table = gitmoji_table();
    for _ in 0..20 {
        let g = get_random_gitmoji();
        assert!(table.iter().any(|e| e.code == g.code && e.emoji == g.emoji));
    }
}

#[test]
fn prepend_puts_emoji_and_space_in_front() {
    let g = Gitmoji {
        emoji: "\u{1F41B}".to_string(),
        code: ":bug:".to_string(),
        description: "Fix bug".to_string(),
        keywords: vec![],
    };
    assert_eq!(prepend_gitmoji("fix crash", &g), "\u{1F41B} fix crash");
}

#[test]
fn gitmojified_message_keeps_the_text() {
    let msg = "fix crash on startup";
    let decorated = get_gitmojified_message(msg);
    assert_eq!(decorated, format!("\u{1F41B} {}", msg));
}

#[test]
fn gitmojified_unmatched_message_gets_some_table_emoji() {
    let msg = "zzz qqq";
    let decorated = get_gitmojified_message(msg);
    assert!(decorated.ends_with(&format!(" {}", msg)));
    let emoji = decorated.strip_suffix(&format!(" {}", msg)).unwrap();
    let table = gitmoji_table();
    assert!(table.iter().any(|e| e.emoji == emoji));
}

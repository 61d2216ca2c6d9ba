use hyperspace::object::ObjectKind;
use hyperspace::palette::{fuzzy_score, rank_commands, Command, CommandAction, CommandPalette};

#[test]
fn empty_query_matches_anything() {
    assert_eq!(fuzzy_score("", "Spawn Note"), Some(0));
    assert_eq!(fuzzy_score("   ", "Anything"), Some(0));
}

#[test]
fn subsequence_matches_and_nonmatch_rejected() {
    assert!(fuzzy_score("sn", "Spawn Note").is_some());
    assert!(fuzzy_score("note", "Spawn Note").is_some());
    assert!(fuzzy_score("xyz", "Spawn Note").is_none());
}

#[test]
fn word_start_outscores_buried_match() {
    // "fit" as a leading word should beat the same letters buried mid-word.
    let lead = fuzzy_score("fit", "Fit to content").unwrap();
    let buried = fuzzy_score("fit", "Backfit settings").unwrap();
    assert!(lead > buried, "lead {lead} should beat buried {buried}");
}

#[test]
fn exact_scores_follow_the_bonus_rules() {
    // f: 1 + 15 (start); i: 1 + 5 (run); t: 1 + 5 (run); 14 chars / 12 = 1.
    assert_eq!(fuzzy_score("fit", "Fit to content"), Some(28 - 1));
    // "Backfit settings": f at 4 (+1), i (+1 +5), t (+1 +5); 16 / 12 = 1.
    assert_eq!(fuzzy_score("fit", "Backfit settings"), Some(13 - 1));
    // s at 0: 16; the greedy match takes the n of "spawn" (+1); 10 chars / 12 = 0.
    assert_eq!(fuzzy_score("sn", "Spawn Note"), Some(17));
    // Greedy: the n of "spawn" (+1), then the o of "note" (+1, no run).
    assert_eq!(fuzzy_score("no", "Spawn Note"), Some(2));
}

#[test]
fn query_is_case_insensitive_and_ignores_white_space() {
    assert_eq!(fuzzy_score("S N", "spawn note"), fuzzy_score("sn", "Spawn Note"));
    assert_eq!(fuzzy_score("NOTE", "Spawn Note"), fuzzy_score("note", "spawn note"));
    assert!(fuzzy_score("\t", "x").is_some());
}

#[test]
fn separators_start_words() {
    // '-' '/' '_' all count as word starts.
    assert_eq!(fuzzy_score("b", "a-b"), Some(11));
    assert_eq!(fuzzy_score("b", "a/b"), Some(11));
    assert_eq!(fuzzy_score("b", "a_b"), Some(11));
    assert_eq!(fuzzy_score("b", "ab"), Some(1));
}

#[test]
fn longer_titles_lose_a_point_per_twelve_chars() {
    let short = fuzzy_score("a", "a").unwrap();
    let long = fuzzy_score("a", "abcdefghijklmnopqrstuvwxy").unwrap();
    assert_eq!(short, 16);
    assert_eq!(long, 16 - 2);
}

fn cmd(title: &str) -> Command {
    Command::new("*".to_string(), title.to_string(), "".to_string(), CommandAction::Save)
}

#[test]
fn ranking_keeps_matches_best_first_and_registry_order_on_ties() {
    let commands = vec![
        cmd("Backfit settings"),
        cmd("Save"),
        cmd("Fit to content"),
        cmd("Fit view"),
        cmd("Zoom"),
    ];
    let ranked = rank_commands("fit", &commands);
    // "Fit to content" and "Fit view" score 27 and 28; "Backfit settings" 12.
    assert_eq!(ranked, vec![3, 2, 0]);
    let all = rank_commands("", &commands);
    assert_eq!(all, vec![0, 1, 2, 3, 4]);
    assert!(rank_commands("qqq", &commands).is_empty());
}

#[test]
fn palette_toggle_and_navigation() {
    let mut palette = CommandPalette::new();
    assert!(!palette.open);
    palette.set_query("old".to_string());
    palette.toggle();
    assert!(palette.open);
    assert_eq!(palette.query(), "");
    assert_eq!(palette.selected(), 0);
    assert!(palette.take_focus_request());
    assert!(!palette.take_focus_request());
    palette.select_next(3);
    palette.select_next(3);
    assert_eq!(palette.selected(), 2);
    palette.select_next(3);
    assert_eq!(palette.selected(), 0);
    palette.select_previous(3);
    assert_eq!(palette.selected(), 2);
    palette.keep_selection_in_range(2);
    assert_eq!(palette.selected(), 1);
    assert_eq!(palette.highlighted(&vec![7, 9]), Some(9));
    palette.keep_selection_in_range(0);
    assert_eq!(palette.selected(), 0);
    assert_eq!(palette.highlighted(&vec![]), None);
    palette.toggle();
    assert!(!palette.open);
    let action = CommandAction::Spawn(ObjectKind::Note);
    assert_eq!(action, CommandAction::Spawn(ObjectKind::Note));
}

#[test]
fn long_titles_are_still_scored() {
    let mut title = String::from("a");
    title.push_str(&"b".repeat(1_000_000));
    // 'a' at 0: 16 points; 1,000,001 characters / 12 = 83,333.
    assert_eq!(fuzzy_score("a", &title), Some(16 - 83_333));
    assert_eq!(fuzzy_score("ab", &title), Some(16 + 6 - 83_333));
}

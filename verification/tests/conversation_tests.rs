use gemma_chat::conversation::{check_role, clean_title, conversation_title, normalize_role, search_terms};

#[test]
fn clean_title_trims_surrounding_white_space() {
    assert_eq!(clean_title("  hello world \n".to_string()), "hello world");
}

#[test]
fn clean_title_trims_unicode_white_space() {
    assert_eq!(clean_title("\u{A0}\u{3000}chat\u{2009}\t".to_string()), "chat");
}

#[test]
fn clean_title_blank_becomes_new_chat() {
    assert_eq!(clean_title("   \t\n ".to_string()), "new chat");
    assert_eq!(clean_title(String::new()), "new chat");
}

#[test]
fn clean_title_keeps_eighty_characters() {
    let long = "a".repeat(100);
    assert_eq!(clean_title(long), "a".repeat(80));
    let exact = "b".repeat(80);
    assert_eq!(clean_title(exact.clone()), exact);
}

#[test]
fn clean_title_counts_characters_not_bytes() {
    let long = "é".repeat(90);
    let cleaned = clean_title(long);
    assert_eq!(cleaned.chars().count(), 80);
    assert_eq!(cleaned, "é".repeat(80));
}

#[test]
fn clean_title_twice_is_clean_title_once() {
    for t in ["  x  ", "", "long title here", &"z".repeat(120)] {
        let once = clean_title(t.to_string());
        assert_eq!(clean_title(once.clone()), once);
    }
}

#[test]
fn clean_title_cut_may_end_in_space() {
    let t = format!("{} tail", "a".repeat(79));
    let once = clean_title(t);
    assert_eq!(once, format!("{} ", "a".repeat(79)));
    assert_eq!(clean_title(once), "a".repeat(79));
}

#[test]
fn conversation_title_defaults_to_new_chat() {
    assert_eq!(conversation_title(None), "new chat");
    assert_eq!(conversation_title(Some("  plans ".to_string())), "plans");
    assert_eq!(conversation_title(Some(" ".to_string())), "new chat");
}

#[test]
fn search_terms_without_search() {
    assert_eq!(search_terms(None), (String::new(), "%%".to_string()));
}

#[test]
fn search_terms_trim_and_wrap() {
    assert_eq!(
        search_terms(Some("  rust tips ".to_string())),
        ("rust tips".to_string(), "%rust tips%".to_string())
    );
}

#[test]
fn normalize_role_lowercases_and_trims() {
    assert_eq!(normalize_role("  USER "), Ok("user".to_string()));
    assert_eq!(normalize_role("Assistant"), Ok("assistant".to_string()));
    assert_eq!(normalize_role("system"), Ok("system".to_string()));
}

#[test]
fn normalize_role_refuses_other_roles() {
    assert_eq!(normalize_role("admin"), Err("invalid message role".to_string()));
    assert_eq!(normalize_role(""), Err("invalid message role".to_string()));
    assert_eq!(normalize_role("us er"), Err("invalid message role".to_string()));
}

#[test]
fn check_role_takes_lowered_roles_only() {
    assert_eq!(check_role("user".to_string()), Ok("user".to_string()));
    assert_eq!(check_role("User".to_string()), Err("invalid message role".to_string()));
}

use rigflow_client::bookmarks::{bookmark_notes, new_bookmark_id};

fn ids(v: &[&str]) -> Vec<String> {
    v.iter().map(|s| s.to_string()).collect()
}

#[test]
fn empty_name_is_refused() {
    assert_eq!(new_bookmark_id("", &ids(&[])), Err("bookmark name cannot be empty".to_string()));
    assert_eq!(new_bookmark_id(" \t ", &ids(&["x"])), Err("bookmark name cannot be empty".to_string()));
}

#[test]
fn free_id_is_kept() {
    assert_eq!(new_bookmark_id("FT8 20m", &ids(&["ft8-40m"])), Ok("ft8-20m".to_string()));
    assert_eq!(new_bookmark_id("!!!", &ids(&[])), Ok("bookmark".to_string()));
}

#[test]
fn taken_id_gets_first_free_suffix() {
    assert_eq!(new_bookmark_id("Net", &ids(&["net"])), Ok("net-2".to_string()));
    assert_eq!(new_bookmark_id("Net", &ids(&["net", "net-2"])), Ok("net-3".to_string()));
    assert_eq!(new_bookmark_id("Net", &ids(&["net-2", "net", "net-4"])), Ok("net-3".to_string()));
    assert_eq!(new_bookmark_id("!!", &ids(&["bookmark"])), Ok("bookmark-2".to_string()));
}

#[test]
fn new_ids_never_collide() {
    let mut existing: Vec<String> = Vec::new();
    for name in ["Net", "net", "NET ", "Net-2", "net 2", "x", "X"] {
        let id = new_bookmark_id(name, &existing).unwrap();
        assert!(!existing.contains(&id));
        existing.push(id);
    }
    assert_eq!(existing, ids(&["net", "net-2", "net-3", "net-2-2", "net-2-3", "x", "x-2"]));
}

#[test]
fn notes_are_trimmed_or_dropped() {
    assert_eq!(bookmark_notes("  nice signal \n"), Some("nice signal".to_string()));
    assert_eq!(bookmark_notes("   "), None);
    assert_eq!(bookmark_notes(""), None);
}

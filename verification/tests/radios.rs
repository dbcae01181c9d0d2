use rigflow_client::radios::{
    category_label, category_order, find_radio, radio_label, radio_list, radio_list_sorted_by, RadioEntry,
    RadioListRow, RadioSourceKind,
};

fn radio(id: &str, name: &str, kind: RadioSourceKind, leased: bool) -> RadioEntry {
    RadioEntry { id: id.to_string(), display_name: name.to_string(), source_kind: kind, is_leased: leased }
}

#[test]
fn categories_in_fixed_order() {
    assert!(category_order(RadioSourceKind::Hardware) < category_order(RadioSourceKind::Recording));
    assert!(category_order(RadioSourceKind::Recording) < category_order(RadioSourceKind::Virtual));
    assert!(category_order(RadioSourceKind::Virtual) < category_order(RadioSourceKind::Unknown));
    assert_eq!(category_label(RadioSourceKind::Recording), "Recordings");
    assert_eq!(category_label(RadioSourceKind::Unknown), "Other");
}

#[test]
fn list_groups_by_category_then_name_ignoring_case() {
    let radios = vec![
        radio("v1", "zeta", RadioSourceKind::Virtual, false),
        radio("h2", "Beta", RadioSourceKind::Hardware, false),
        radio("r1", "capture.wav", RadioSourceKind::Recording, false),
        radio("h1", "alpha", RadioSourceKind::Hardware, true),
        radio("u1", "mystery", RadioSourceKind::Unknown, false),
        radio("v2", "Echo", RadioSourceKind::Virtual, false),
    ];
    assert_eq!(
        radio_list(&radios),
        vec![
            RadioListRow::Header(RadioSourceKind::Hardware),
            RadioListRow::Radio(3),
            RadioListRow::Radio(1),
            RadioListRow::Header(RadioSourceKind::Recording),
            RadioListRow::Radio(2),
            RadioListRow::Header(RadioSourceKind::Virtual),
            RadioListRow::Radio(5),
            RadioListRow::Radio(0),
            RadioListRow::Header(RadioSourceKind::Unknown),
            RadioListRow::Radio(4),
        ]
    );
}

#[test]
fn equal_names_keep_server_order() {
    let radios = vec![
        radio("a", "HL2", RadioSourceKind::Hardware, false),
        radio("b", "hl2", RadioSourceKind::Hardware, false),
        radio("c", "HL2", RadioSourceKind::Hardware, false),
    ];
    assert_eq!(
        radio_list(&radios),
        vec![
            RadioListRow::Header(RadioSourceKind::Hardware),
            RadioListRow::Radio(0),
            RadioListRow::Radio(1),
            RadioListRow::Radio(2),
        ]
    );
}

#[test]
fn sorting_by_given_names() {
    let radios = vec![
        radio("a", "x", RadioSourceKind::Virtual, false),
        radio("b", "y", RadioSourceKind::Virtual, false),
    ];
    let names = vec!["b".to_string(), "a".to_string()];
    assert_eq!(
        radio_list_sorted_by(&radios, &names),
        vec![RadioListRow::Header(RadioSourceKind::Virtual), RadioListRow::Radio(1), RadioListRow::Radio(0)]
    );
    assert_eq!(radio_list(&Vec::new()), Vec::new());
}

#[test]
fn labels_and_lookup() {
    let radios = vec![
        radio("hl2-1", "Hermes Lite 2", RadioSourceKind::Hardware, true),
        radio("rtl-0", "RTL-SDR", RadioSourceKind::Hardware, false),
    ];
    assert_eq!(radio_label(&radios[0]), "Hermes Lite 2 (busy)");
    assert_eq!(radio_label(&radios[1]), "RTL-SDR");
    assert_eq!(find_radio(&radios, "rtl-0"), Some(1));
    assert_eq!(find_radio(&radios, "missing"), None);
}

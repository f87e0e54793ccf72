use bullet::storage::{
    add_entry, change_state_statement, decode_entry, delete_statement, find_latest,
    get_header_contents, get_last_migration_id, invalid_priority_message,
    is_okay_for_new_migration, journal_query, load_journal_entry, migrate, print_all_entry,
    priority_from_name, state_from_name, ConvertEnum, CorruptRow, Entry, Priority, State,
};

fn entry(text: &str, state: State, priority: Priority) -> Entry {
    Entry { text: text.to_string(), state, priority }
}

#[test]
fn priority_names() {
    assert_eq!(Priority::Safe.to_string(), "Safe");
    assert_eq!(Priority::Euclid.to_string(), "Euclid");
    assert_eq!(Priority::Keter.to_string(), "Keter");
}

#[test]
fn state_names() {
    assert_eq!(State::Completed.to_string(), "Completed");
    assert_eq!(State::Active.to_string(), "Active");
    assert_eq!(State::Discarded.to_string(), "Discarded");
    assert_eq!(State::Completed.stored_name(), "completed");
    assert_eq!(State::Active.stored_name(), "active");
    assert_eq!(State::Discarded.stored_name(), "discarded");
}

#[test]
fn convert_to_state_ignores_case_and_space() {
    assert_eq!("Completed".to_string().convert_to_state(), Some(State::Completed));
    assert_eq!(" ACTIVE ".to_string().convert_to_state(), Some(State::Active));
    assert_eq!("discarded\n".to_string().convert_to_state(), Some(State::Discarded));
    assert_eq!("onboard".to_string().convert_to_state(), None);
    assert_eq!("".to_string().convert_to_state(), None);
    assert_eq!("act ive".to_string().convert_to_state(), None);
}

#[test]
fn convert_to_priority_ignores_case_and_space() {
    assert_eq!("Keter".to_string().convert_to_priority(), Some(Priority::Keter));
    assert_eq!("euclid ".to_string().convert_to_priority(), Some(Priority::Euclid));
    assert_eq!("\tSAFE".to_string().convert_to_priority(), Some(Priority::Safe));
    assert_eq!("apollyon".to_string().convert_to_priority(), None);
    assert_eq!("Completed".to_string().convert_to_priority(), None);
}

#[test]
fn convert_uses_unicode_case_and_space() {
    // U+212A KELVIN SIGN lowercases to 'k'.
    assert_eq!("\u{212A}eter".to_string().convert_to_priority(), Some(Priority::Keter));
    // U+3000 and U+00A0 are white space.
    assert_eq!("\u{3000}safe\u{a0}".to_string().convert_to_priority(), Some(Priority::Safe));
    // U+200B is not white space.
    assert_eq!("safe\u{200b}".to_string().convert_to_priority(), None);
}

#[test]
fn normalized_names_only() {
    assert_eq!(state_from_name("active"), Some(State::Active));
    assert_eq!(state_from_name("Active"), None);
    assert_eq!(state_from_name(" active"), None);
    assert_eq!(priority_from_name("keter"), Some(Priority::Keter));
    assert_eq!(priority_from_name("KETER"), None);
}

#[test]
fn names_read_back() {
    for p in [Priority::Safe, Priority::Euclid, Priority::Keter] {
        assert_eq!(p.to_string().convert_to_priority(), Some(p));
    }
    for s in [State::Completed, State::Active, State::Discarded] {
        assert_eq!(s.to_string().convert_to_state(), Some(s));
        assert_eq!(s.stored_name().convert_to_state(), Some(s));
    }
}

#[test]
fn latest_migration() {
    assert_eq!(find_latest(vec![]), 0);
    assert_eq!(find_latest(vec![0]), 0);
    assert_eq!(find_latest(vec![3, 9, 2]), 9);
    assert_eq!(find_latest(vec![4, 4, 1, u32::MAX]), u32::MAX);
    assert_eq!(get_last_migration_id(vec![]), None);
    assert_eq!(get_last_migration_id(vec![0]), Some(0));
    assert_eq!(get_last_migration_id(vec![0, 1, 2]), Some(2));
}

#[test]
fn recording_a_migration_raises_the_latest() {
    let mut ids = vec![0, 1];
    let id = get_last_migration_id(ids.clone()).unwrap();
    let journal: Vec<(u32, Entry)> = Vec::new();
    let m = migrate(&journal, id);
    ids.push(m.next_id);
    assert_eq!(get_last_migration_id(ids), Some(2));
}

#[test]
fn migration_eligibility() {
    assert!(is_okay_for_new_migration(&entry("a", State::Active, Priority::Keter)));
    assert!(is_okay_for_new_migration(&entry("a", State::Active, Priority::Euclid)));
    assert!(!is_okay_for_new_migration(&entry("a", State::Active, Priority::Safe)));
    assert!(!is_okay_for_new_migration(&entry("a", State::Completed, Priority::Keter)));
    assert!(!is_okay_for_new_migration(&entry("a", State::Discarded, Priority::Euclid)));
    assert!(!is_okay_for_new_migration(&entry("a", State::Completed, Priority::Safe)));
}

#[test]
fn migrate_moves_open_bullets() {
    let journal = vec![
        (7, entry("kill the old gods", State::Active, Priority::Keter)),
        (8, entry("water plants", State::Active, Priority::Safe)),
        (9, entry("call home", State::Completed, Priority::Euclid)),
        (10, entry("read", State::Active, Priority::Euclid)),
        (11, entry("old plan", State::Discarded, Priority::Keter)),
    ];
    let m = migrate(&journal, 3);
    assert_eq!(m.next_id, 4);
    assert_eq!(m.moved, vec![7, 10]);
    let empty: Vec<(u32, Entry)> = Vec::new();
    let m = migrate(&empty, 0);
    assert_eq!(m.next_id, 1);
    assert!(m.moved.is_empty());
}

#[test]
fn header_counts() {
    let rows = vec![
        ("keter".to_string(), 1),
        ("Keter ".to_string(), 1),
        ("euclid".to_string(), 1),
        ("keter".to_string(), 0),
        ("safe".to_string(), 2),
    ];
    assert_eq!(get_header_contents(&rows, 1), (3, 2));
    assert_eq!(get_header_contents(&rows, 0), (1, 1));
    assert_eq!(get_header_contents(&rows, 2), (1, 0));
    assert_eq!(get_header_contents(&rows, 5), (0, 0));
    assert_eq!(get_header_contents(&Vec::new(), 0), (0, 0));
}

#[test]
fn add_entry_checks_priority() {
    let row = add_entry("Kill the old gods".to_string(), " KETER".to_string(), 4).unwrap();
    assert_eq!(row.text, "Kill the old gods");
    assert_eq!(row.state, "active");
    assert_eq!(row.priority, " KETER");
    assert_eq!(row.migration, 4);
    assert!(add_entry("x".to_string(), "thaumiel".to_string(), 4).is_none());
    assert_eq!(
        invalid_priority_message(),
        "Priority name is not valid. Valid values are Safe, Euclid, Keter"
    );
}

#[test]
fn added_entry_reads_back() {
    let row = add_entry("note".to_string(), "Euclid".to_string(), 0).unwrap();
    let e = decode_entry(row.text, &row.state, &row.priority).unwrap();
    assert_eq!(e.text, "note");
    assert_eq!(e.state, State::Active);
    assert_eq!(e.priority, Priority::Euclid);
    assert!(is_okay_for_new_migration(&e));
}

#[test]
fn decode_rows() {
    let e = decode_entry("t".to_string(), &"completed".to_string(), &"keter".to_string()).unwrap();
    assert_eq!((e.state, e.priority), (State::Completed, Priority::Keter));
    assert!(matches!(
        decode_entry("t".to_string(), &"done".to_string(), &"keter".to_string()),
        Err(CorruptRow::InvalidState)
    ));
    assert!(matches!(
        decode_entry("t".to_string(), &"done".to_string(), &"bad".to_string()),
        Err(CorruptRow::InvalidState)
    ));
    assert!(matches!(
        decode_entry("t".to_string(), &"active".to_string(), &"bad".to_string()),
        Err(CorruptRow::InvalidPriority)
    ));
}

#[test]
fn journal_rows_fall_back() {
    let e = load_journal_entry("t".to_string(), None, None).unwrap();
    assert_eq!((e.state, e.priority), (State::Completed, Priority::Safe));
    let e = load_journal_entry("t".to_string(), Some("active".to_string()), None).unwrap();
    assert_eq!((e.state, e.priority), (State::Active, Priority::Safe));
    assert!(matches!(
        load_journal_entry("t".to_string(), Some("x".to_string()), None),
        Err(CorruptRow::InvalidState)
    ));
    assert!(matches!(
        print_all_entry("t".to_string(), None, Some("keter".to_string())),
        Err(CorruptRow::InvalidState)
    ));
    assert!(matches!(
        print_all_entry("t".to_string(), Some("active".to_string()), None),
        Err(CorruptRow::InvalidPriority)
    ));
    let e = print_all_entry("t".to_string(), Some("Discarded".to_string()), Some("Euclid".to_string()))
        .unwrap();
    assert_eq!((e.state, e.priority), (State::Discarded, Priority::Euclid));
}

#[test]
fn statements() {
    assert_eq!(
        change_state_statement(State::Discarded, 5),
        "UPDATE Journal SET state='discarded' WHERE id=5;"
    );
    assert_eq!(
        change_state_statement(State::Active, 120),
        "UPDATE Journal SET state='active' WHERE id=120;"
    );
    assert_eq!(delete_statement(0), "DELETE FROM Journal WHERE id = 0;");
    assert_eq!(delete_statement(4294967295), "DELETE FROM Journal WHERE id = 4294967295;");
    assert_eq!(
        journal_query(42),
        "SELECT id, text, state, priority FROM Journal WHERE migration=42"
    );
}

use paneru::control_center::{
    clean_control_center, clean_tracked_applications, counts_fit, dictionary_contains_paneru,
    find_key, lowered_text_mentions_paneru, remove_menu_bar_entries_from_control_center_plist,
    replace_tracked_applications, strip_paneru_menu_item_locations, tracked_applications_data,
    tracked_applications_value, value_contains_paneru, ControlCenterError, PlistValue,
};
use base64::Engine;
use plist::{Dictionary, Value};

fn boolean(b: bool) -> PlistValue {
    PlistValue::Other(Value::Boolean(b))
}

fn integer(i: i64) -> PlistValue {
    PlistValue::Other(Value::Integer(i.into()))
}

fn string(s: &str) -> PlistValue {
    PlistValue::String(s.to_string())
}

fn dict(entries: Vec<(&str, PlistValue)>) -> PlistValue {
    PlistValue::Dictionary(entries.into_iter().map(|(k, v)| (k.to_string(), v)).collect())
}

fn bundle_item(bundle_id: &str) -> PlistValue {
    dict(vec![("bundle", dict(vec![("_0", string(bundle_id))]))])
}

fn adhoc_item(path: &str) -> PlistValue {
    dict(vec![(
        "adhocBinary",
        dict(vec![("_0", dict(vec![("relative", string(path))]))]),
    )])
}

fn menu_item(location_bundle_id: &str, menu_item_locations: Vec<PlistValue>) -> PlistValue {
    dict(vec![
        ("isAllowed", boolean(true)),
        ("location", bundle_item(location_bundle_id)),
        ("menuItemLocations", PlistValue::Array(menu_item_locations)),
    ])
}

#[test]
fn removes_only_paneru_items_in_memory() {
    let mut applications = PlistValue::Array(vec![
        bundle_item("com.example.keep"),
        menu_item(
            "com.example.host",
            vec![bundle_item("com.example.host"), bundle_item("com.github.karinushka.paneru")],
        ),
        adhoc_item("file:///opt/homebrew/Cellar/paneru/0.4.1/bin/paneru"),
        menu_item("com.example.keep-menu", vec![bundle_item("com.example.keep-menu")]),
    ]);
    assert!(counts_fit(&applications));

    let removed = clean_tracked_applications(&mut applications);

    assert_eq!(removed, 2);
    let rendered = format!("{applications:?}");
    assert!(!rendered.to_lowercase().contains("paneru"));
    assert!(rendered.contains("com.example.keep"));
    assert!(rendered.contains("com.example.host"));
    assert!(rendered.contains("com.example.keep-menu"));
    assert_eq!(
        applications,
        PlistValue::Array(vec![
            bundle_item("com.example.keep"),
            menu_item("com.example.host", vec![bundle_item("com.example.host")]),
            menu_item("com.example.keep-menu", vec![bundle_item("com.example.keep-menu")]),
        ])
    );
}

#[test]
fn cleaning_twice_removes_nothing_more() {
    let mut applications = PlistValue::Array(vec![
        menu_item("com.example.host", vec![string("Paneru"), string("other")]),
        string("KARINUSHKA"),
    ]);
    assert_eq!(clean_tracked_applications(&mut applications), 2);
    assert_eq!(clean_tracked_applications(&mut applications), 0);
    assert_eq!(
        applications,
        PlistValue::Array(vec![menu_item("com.example.host", vec![string("other")])])
    );
}

#[test]
fn non_array_is_left_alone() {
    let mut value = string("paneru");
    assert_eq!(clean_tracked_applications(&mut value), 0);
    assert_eq!(value, string("paneru"));
}

#[test]
fn contains_paneru_in_any_case_and_depth() {
    assert!(value_contains_paneru(&string("Applications/PANERU.app")));
    assert!(value_contains_paneru(&string("github.com/Karinushka")));
    assert!(!value_contains_paneru(&string("com.example.keep")));
    assert!(value_contains_paneru(&PlistValue::Array(vec![
        integer(3),
        PlistValue::Array(vec![string("x"), string("my-paneru")]),
    ])));
    assert!(!value_contains_paneru(&PlistValue::Data(b"paneru".to_vec())));
    assert!(!value_contains_paneru(&PlistValue::Array(vec![])));
    // Keys are checked for `paneru` only.
    assert!(dictionary_contains_paneru(&vec![("PaneruKey".to_string(), boolean(false))]));
    assert!(!dictionary_contains_paneru(&vec![("karinushka".to_string(), boolean(false))]));
    assert!(value_contains_paneru(&dict(vec![("k", string("karinushka"))])));
    assert!(lowered_text_mentions_paneru("a karinushka b"));
    assert!(!lowered_text_mentions_paneru("pane ru"));
}

#[test]
fn strip_counts_removed_locations() {
    let mut item = menu_item("host", vec![string("paneru"), string("a"), string("Paneru2")]);
    assert_eq!(strip_paneru_menu_item_locations(&mut item), 2);
    assert_eq!(item, menu_item("host", vec![string("a")]));

    let mut no_locations = bundle_item("paneru");
    assert_eq!(strip_paneru_menu_item_locations(&mut no_locations), 0);
    assert_eq!(no_locations, bundle_item("paneru"));

    let mut not_array = dict(vec![("menuItemLocations", string("paneru"))]);
    assert_eq!(strip_paneru_menu_item_locations(&mut not_array), 0);
    assert_eq!(not_array, dict(vec![("menuItemLocations", string("paneru"))]));
}

#[test]
fn tracked_data_from_data_or_base64() {
    assert_eq!(
        tracked_applications_data(&PlistValue::Data(vec![1, 2, 3])).unwrap(),
        vec![1, 2, 3]
    );
    assert_eq!(
        tracked_applications_data(&string("aGVsbG8=")).unwrap(),
        b"hello".to_vec()
    );
    assert!(matches!(
        tracked_applications_data(&string("not base64!")),
        Err(ControlCenterError::InvalidBase64(_))
    ));
    assert!(matches!(
        tracked_applications_data(&boolean(true)),
        Err(ControlCenterError::NotDataOrString)
    ));
}

#[test]
fn tracked_applications_lookup_and_replacement() {
    let mut root = dict(vec![
        ("other", integer(1)),
        ("trackedApplications", PlistValue::Data(vec![9])),
    ]);
    assert_eq!(tracked_applications_value(&root), Some(&PlistValue::Data(vec![9])));
    assert!(replace_tracked_applications(&mut root, vec![4, 5]));
    assert_eq!(
        root,
        dict(vec![
            ("other", integer(1)),
            ("trackedApplications", PlistValue::Data(vec![4, 5])),
        ])
    );
    let mut missing = dict(vec![("other", integer(1))]);
    assert_eq!(tracked_applications_value(&missing), None);
    assert!(!replace_tracked_applications(&mut missing, vec![1]));
    let mut not_dict = PlistValue::Array(vec![]);
    assert_eq!(tracked_applications_value(&not_dict), None);
    assert!(!replace_tracked_applications(&mut not_dict, vec![1]));
}

#[test]
fn first_key_wins() {
    let entries = vec![
        ("a".to_string(), integer(1)),
        ("b".to_string(), integer(2)),
        ("a".to_string(), integer(3)),
    ];
    assert_eq!(find_key(&entries, "a"), Some(0));
    assert_eq!(find_key(&entries, "b"), Some(1));
    assert_eq!(find_key(&entries, "c"), None);
}

fn control_center_plist(items: Vec<Value>) -> Value {
    let mut nested_bytes = Vec::new();
    Value::Array(items)
        .to_writer_binary(&mut nested_bytes)
        .expect("nested plist should be writable");

    let mut root = Dictionary::new();
    root.insert("trackedApplications".to_owned(), Value::Data(nested_bytes));
    Value::Dictionary(root)
}

fn plist_bundle_item(bundle_id: &str) -> Value {
    let mut inner = Dictionary::new();
    inner.insert("_0".to_owned(), Value::String(bundle_id.to_owned()));

    let mut item = Dictionary::new();
    item.insert("bundle".to_owned(), Value::Dictionary(inner));
    Value::Dictionary(item)
}

fn plist_adhoc_item(path: &str) -> Value {
    let mut relative = Dictionary::new();
    relative.insert("relative".to_owned(), Value::String(path.to_owned()));

    let mut inner = Dictionary::new();
    inner.insert("_0".to_owned(), Value::Dictionary(relative));

    let mut item = Dictionary::new();
    item.insert("adhocBinary".to_owned(), Value::Dictionary(inner));
    Value::Dictionary(item)
}

fn plist_menu_item(location_bundle_id: &str, menu_item_locations: Vec<Value>) -> Value {
    let mut item = Dictionary::new();
    item.insert("isAllowed".to_owned(), Value::Boolean(true));
    item.insert("location".to_owned(), plist_bundle_item(location_bundle_id));
    item.insert(
        "menuItemLocations".to_owned(),
        Value::Array(menu_item_locations),
    );
    Value::Dictionary(item)
}

#[test]
fn removes_only_paneru_menu_bar_settings_entries() {
    let root = control_center_plist(vec![
        plist_bundle_item("com.example.keep"),
        plist_menu_item(
            "com.example.host",
            vec![
                plist_bundle_item("com.example.host"),
                plist_bundle_item("com.github.karinushka.paneru"),
            ],
        ),
        plist_adhoc_item("file:///opt/homebrew/Cellar/paneru/0.4.1/bin/paneru"),
        plist_menu_item(
            "com.example.keep-menu",
            vec![plist_bundle_item("com.example.keep-menu")],
        ),
    ]);
    let mut contents = Vec::new();
    root.to_writer_binary(&mut contents)
        .expect("test plist should be written");

    let (removed, cleaned) = remove_menu_bar_entries_from_control_center_plist(&contents)
        .expect("counts fit")
        .expect("control center plist should be cleaned");

    assert_eq!(removed, 2);
    let cleaned = cleaned.expect("cleaned plist should exist");
    let cleaned =
        Value::from_reader(std::io::Cursor::new(cleaned)).expect("cleaned plist should parse");
    let nested_bytes = cleaned
        .as_dictionary()
        .and_then(|dict| dict.get("trackedApplications"))
        .and_then(Value::as_data)
        .expect("trackedApplications should be data");
    let nested_bytes = Value::from_reader(std::io::Cursor::new(nested_bytes))
        .expect("trackedApplications should parse");
    let rendered = format!("{nested_bytes:?}");
    assert!(!rendered.to_lowercase().contains("paneru"));
    assert!(rendered.contains("com.example.keep"));
    assert!(rendered.contains("com.example.host"));
    assert!(rendered.contains("com.example.keep-menu"));
}

#[test]
fn file_without_paneru_is_not_rewritten() {
    let root = control_center_plist(vec![plist_bundle_item("com.example.keep")]);
    let mut contents = Vec::new();
    root.to_writer_binary(&mut contents).unwrap();
    let outcome = remove_menu_bar_entries_from_control_center_plist(&contents)
        .expect("counts fit")
        .expect("plist should be cleaned");
    assert_eq!(outcome, (0, None));
}

#[test]
fn second_cleaning_of_a_file_removes_nothing() {
    let root = control_center_plist(vec![
        plist_adhoc_item("/Applications/Paneru.app"),
        plist_bundle_item("com.example.keep"),
    ]);
    let mut contents = Vec::new();
    root.to_writer_binary(&mut contents).unwrap();
    let (removed, cleaned) = remove_menu_bar_entries_from_control_center_plist(&contents)
        .unwrap()
        .unwrap();
    assert_eq!(removed, 1);
    let again = remove_menu_bar_entries_from_control_center_plist(&cleaned.unwrap())
        .unwrap()
        .unwrap();
    assert_eq!(again, (0, None));
}

#[test]
fn control_center_errors() {
    assert!(matches!(
        remove_menu_bar_entries_from_control_center_plist(b"not a plist"),
        Some(Err(ControlCenterError::InvalidPlist(_)))
    ));
    let mut root = PlistValue::Dictionary(vec![("trackedApplications".to_string(), boolean(true))]);
    assert!(matches!(
        clean_control_center(&mut root),
        Some(Err(ControlCenterError::NotDataOrString))
    ));
    let mut root = PlistValue::Dictionary(vec![(
        "trackedApplications".to_string(),
        PlistValue::Data(b"garbage".to_vec()),
    )]);
    assert!(matches!(
        clean_control_center(&mut root),
        Some(Err(ControlCenterError::InvalidPlist(_)))
    ));
    let mut root = PlistValue::Dictionary(vec![("other".to_string(), boolean(true))]);
    assert!(matches!(clean_control_center(&mut root), Some(Ok(0))));
}

#[test]
fn base64_tracked_applications_are_cleaned() {
    let mut nested = Vec::new();
    Value::Array(vec![Value::String("paneru".to_owned()), Value::String("keep".to_owned())])
        .to_writer_xml(&mut nested)
        .unwrap();
    let text = base64::engine::general_purpose::STANDARD.encode(&nested);
    let mut root = PlistValue::Dictionary(vec![("trackedApplications".to_string(), PlistValue::String(text))]);
    assert!(matches!(clean_control_center(&mut root), Some(Ok(1))));
    let PlistValue::Dictionary(entries) = &root else { panic!("root should stay a dictionary") };
    let PlistValue::Data(bytes) = &entries[0].1 else { panic!("entry should be data") };
    let nested = Value::from_reader(std::io::Cursor::new(bytes.clone())).unwrap();
    assert_eq!(nested, Value::Array(vec![Value::String("keep".to_owned())]));
}

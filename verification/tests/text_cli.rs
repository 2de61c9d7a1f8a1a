use anan::cli::{
    format_date, list_count, parse_date_opt, stored_year, parse_event_type, parse_place_type, person_summary, read_event_date, resolve_id, search_persons,
    search_places, update_parent, update_surname, DateArgError, FamilyRelArg, GenderArg, update_first_name, update_gender,
    update_year, family_has_parent,
};
use anan::db::repo::{event, person, place};
use anan::db::Snapshot;
use anan::gramps::date::{Date, DateVal};
use anan::text::{
    contains_str, format_int, format_int_padded, handle_from_bytes, parse_i32, parse_i64, parse_trimmed_i32, parse_u64, split_char,
    trim,
};

fn empty() -> Snapshot {
    Snapshot {
        path: String::from("tree.db"),
        persons: Vec::new(),
        families: Vec::new(),
        events: Vec::new(),
        places: Vec::new(),
        sources: Vec::new(),
        citations: Vec::new(),
        media: Vec::new(),
        notes: Vec::new(),
        repositories: Vec::new(),
        tags: Vec::new(),
        references: Vec::new(),
    }
}

fn date(day: i32, month: i32, year: i32, text: &str) -> Date {
    Date {
        class: Some("Date".to_string()),
        calendar: 0,
        modifier: 0,
        quality: 0,
        dateval: Some(DateVal::Simple(day, month, year, false)),
        text: text.to_string(),
        sortval: 0,
        newyear: 0,
        format: None,
        year: Some(year),
    }
}

#[test]
fn integers_format_as_to_string_does() {
    assert_eq!(format_int(0), "0");
    assert_eq!(format_int(-42), "-42");
    assert_eq!(format_int(i64::MIN), i64::MIN.to_string());
    assert_eq!(format_int_padded(7, 4), "0007");
    assert_eq!(format_int_padded(-7, 4), format!("{:04}", -7));
    assert_eq!(format_int_padded(12345, 2), "12345");
}

#[test]
fn integers_parse_as_str_parse_does() {
    for s in ["0", "12", "-12", "+12", "", "-", "+", "1a", " 1", "9223372036854775807", "9223372036854775808", "-9223372036854775808"] {
        assert_eq!(parse_i64(s), s.parse::<i64>().ok(), "i64 {s:?}");
    }
    for s in ["2147483647", "2147483648", "-2147483648", "-2147483649", "17"] {
        assert_eq!(parse_i32(s), s.parse::<i32>().ok(), "i32 {s:?}");
    }
    for s in ["0", "+3", "-3", "18446744073709551615", "18446744073709551616", "x"] {
        assert_eq!(parse_u64(s), s.parse::<u64>().ok(), "u64 {s:?}");
    }
    assert_eq!(parse_trimmed_i32("  1900 \t"), Some(1900));
    assert_eq!(parse_trimmed_i32("   "), None);
}

#[test]
fn trim_split_and_search() {
    assert_eq!(trim("  a b \n"), "a b");
    assert_eq!(trim(""), "");
    assert_eq!(split_char("1900-05-03", '-'), vec!["1900", "05", "03"]);
    assert_eq!(split_char("", '-'), vec![""]);
    assert_eq!(split_char("a--", '-'), vec!["a", "", ""]);
    assert!(contains_str("lovelace", "ove"));
    assert!(contains_str("abc", ""));
    assert!(!contains_str("ab", "abc"));
}

#[test]
fn handles_are_uuid_v4_text() {
    let h = handle_from_bytes([0u8; 16]);
    assert_eq!(h, "00000000-0000-4000-8000-000000000000");
    let h = handle_from_bytes([0xff; 16]);
    assert_eq!(h, "ffffffff-ffff-4fff-bfff-ffffffffffff");
    assert_eq!(h.len(), 36);
}

#[test]
fn date_arguments() {
    assert!(matches!(parse_date_opt(None), Ok(None)));
    assert!(matches!(parse_date_opt(Some("  ")), Ok(None)));
    let d = parse_date_opt(Some("1900-05-03")).unwrap().unwrap();
    assert_eq!(d.dateval, Some(DateVal::Simple(3, 5, 1900, false)));
    assert_eq!(d.year, Some(1900));
    let d = parse_date_opt(Some(" 1850 ")).unwrap().unwrap();
    assert_eq!(d.dateval, Some(DateVal::Simple(0, 0, 1850, false)));
    assert_eq!(parse_date_opt(Some("19x0")).err(), Some(DateArgError::NotDigits));
    assert_eq!(parse_date_opt(Some("1900-01-02-03")).err(), Some(DateArgError::BadShape));
    assert_eq!(parse_date_opt(Some("0-01-02")).err(), Some(DateArgError::ZeroYear));
}

#[test]
fn dates_print_as_iso() {
    let s = format_date(&date(3, 5, 1900, ""));
    assert_eq!(s.iso.as_deref(), Some("1900-05-03"));
    assert_eq!((s.year, s.month, s.day), (1900, 5, 3));
    assert_eq!(format_date(&date(0, 7, 812, "")).iso.as_deref(), Some("0812-07"));
    assert_eq!(format_date(&date(0, 0, 1850, "")).iso.as_deref(), Some("1850"));
    let mut textual = date(0, 0, 0, "sometime");
    textual.dateval = None;
    textual.year = None;
    let s = format_date(&textual);
    assert!(s.iso.is_none());
    assert_eq!(s.text, "sometime");
}

#[test]
fn type_names_parse_case_insensitively() {
    assert_eq!(parse_event_type("BIRTH"), Some(12));
    assert_eq!(parse_event_type("death"), Some(13));
    assert_eq!(parse_event_type("Marriage"), Some(1));
    assert_eq!(parse_event_type("no such event"), None);
    assert_eq!(parse_place_type("city"), Some(4));
    assert_eq!(parse_place_type("Country"), Some(1));
    assert_eq!(parse_place_type("moon"), None);
}

#[test]
fn argument_enums() {
    assert_eq!(GenderArg::Female.as_i32(), 0);
    assert_eq!(GenderArg::Male.as_i32(), 1);
    assert_eq!(GenderArg::Unknown.as_i32(), 2);
    assert_eq!(GenderArg::Other.as_i32(), 3);
    assert_eq!(FamilyRelArg::Married.as_i32(), 0);
    assert_eq!(FamilyRelArg::Unmarried.as_i32(), 1);
    assert_eq!(FamilyRelArg::CivilUnion.as_i32(), 2);
    assert_eq!(FamilyRelArg::Unknown.as_i32(), 3);
}

#[test]
fn ids_resolve_by_handle_then_gramps_id() {
    let mut t = empty();
    person::create(&mut t, "I0001".to_string(), "A", "X", 1, None, None, String::new(), String::new()).unwrap();
    person::create(&mut t, "hb".to_string(), "B", "Y", 0, None, None, String::new(), String::new()).unwrap();
    // The first person's handle is the second's gramps id: the handle wins.
    assert_eq!(t.persons[1].gramps_id, "I0001");
    assert_eq!(resolve_id(&t.persons, "I0001"), Some(0));
    assert_eq!(resolve_id(&t.persons, "hb"), Some(1));
    assert_eq!(resolve_id(&t.persons, "I0000"), Some(0));
    assert_eq!(resolve_id(&t.persons, "zz"), None);
    assert_eq!(update_parent(&t, None, Some("keep".to_string())), Ok(Some("keep".to_string())));
    assert_eq!(update_parent(&t, Some(String::new()), Some("keep".to_string())), Ok(None));
    assert_eq!(update_parent(&t, Some("hb".to_string()), None), Ok(Some("hb".to_string())));
    assert_eq!(update_parent(&t, Some("nope".to_string()), None), Err("nope".to_string()));
}

#[test]
fn person_summaries_and_event_dates() {
    let mut t = empty();
    person::create(&mut t, "p".to_string(), "Ada", "Lovelace", 0, Some(1815), None, "b".to_string(), String::new()).unwrap();
    let p = t.persons[0].clone();
    let s = person_summary(&p);
    assert_eq!(s.handle, "p");
    assert_eq!(s.gramps_id, "I0000");
    assert_eq!(s.name, "Ada Lovelace");
    assert_eq!(s.gender, "female");
    assert_eq!(s.birth_event.as_deref(), Some("b"));
    assert_eq!(s.death_event, None);
    assert_eq!(read_event_date(&t, &p, 12).and_then(|d| d.year), Some(1815));
    assert!(read_event_date(&t, &p, 13).is_none());
    assert_eq!(update_surname(&p, None), "Lovelace");
    assert_eq!(update_surname(&p, Some("King".to_string())), "King");
    event::create_full(&mut t, "e9".to_string(), 13, "", None, None).unwrap();
    assert!(read_event_date(&t, &p, 13).is_none());
}

#[test]
fn searches_respect_the_limit_and_order() {
    let mut t = empty();
    for (h, first) in [("a", "Anna"), ("b", "Hannah"), ("c", "Bob"), ("d", "Joanna")] {
        person::create(&mut t, h.to_string(), first, "Smith", 2, None, None, String::new(), String::new()).unwrap();
    }
    assert_eq!(search_persons(&t, "ANNA", 10), vec![0, 1, 3]);
    assert_eq!(search_persons(&t, "ann", 1), vec![0]);
    assert_eq!(search_persons(&t, "i0002", 5), vec![2]);
    assert_eq!(search_persons(&t, "smith", 0), Vec::<usize>::new());
    place::create(&mut t, "pl".to_string(), "London", 4, "", "", None).unwrap();
    place::create(&mut t, "pm".to_string(), "Paris", 4, "", "", None).unwrap();
    assert_eq!(search_places(&t, "LON", 5), vec![0]);
    assert_eq!(search_places(&t, "p0001", 5), vec![1]);
}

#[test]
fn list_limits_and_stored_years() {
    assert_eq!(list_count(0, 7), 7);
    assert_eq!(list_count(3, 7), 3);
    assert_eq!(list_count(9, 7), 7);
    assert_eq!(stored_year(&None), None);
    assert_eq!(stored_year(&Some(date(3, 5, 1900, ""))), Some(1900));
    let mut no_year = date(0, 0, 0, "undated");
    no_year.year = None;
    assert_eq!(stored_year(&Some(no_year)), None);
}

#[test]
fn person_update_keeps_what_is_not_given() {
    let mut t = empty();
    person::create(&mut t, "p".to_string(), "Ada", "Lovelace", 0, Some(1815), None, "b".to_string(), String::new()).unwrap();
    let p = t.persons[0].clone();
    assert_eq!(update_first_name(&p, None), "Ada");
    assert_eq!(update_first_name(&p, Some("Augusta".to_string())), "Augusta");
    assert_eq!(update_gender(&p, None), 0);
    assert_eq!(update_gender(&p, Some(1)), 1);
    assert_eq!(update_year(&t, &p, 12, false, None), Ok(Some(1815)));
    assert_eq!(update_year(&t, &p, 13, false, None), Ok(None));
    assert_eq!(update_year(&t, &p, 12, true, Some("1900")), Ok(None));
    assert_eq!(update_year(&t, &p, 12, false, Some("1816-12-10")), Ok(Some(1816)));
    assert_eq!(update_year(&t, &p, 12, false, Some("18x6")), Err(DateArgError::NotDigits));
    assert_eq!(update_year(&t, &p, 12, false, Some("0-01")), Err(DateArgError::ZeroYear));
    assert_eq!(update_year(&t, &p, 12, false, Some("  ")), Ok(None));
}

#[test]
fn a_family_needs_a_parent() {
    assert!(!family_has_parent(&None, &None));
    assert!(family_has_parent(&Some("f".to_string()), &None));
    assert!(family_has_parent(&None, &Some("m".to_string())));
}

#[test]
fn date_arguments_print_back() {
    for s in ["1815", "1815-12", "1815-12-10", "0042-01-02", "9999-99-99"] {
        let d = parse_date_opt(Some(s)).unwrap().unwrap();
        assert_eq!(format_date(&d).iso.as_deref(), Some(s));
    }
    let d = parse_date_opt(Some(" 1815-3-7 ")).unwrap().unwrap();
    assert_eq!(format_date(&d).iso.as_deref(), Some("1815-03-07"));
}

#[test]
fn event_labels_parse_back_in_any_case() {
    for v in -1..=44 {
        if let Some(label) = anan::gramps::enums::event_type_label(v) {
            assert_eq!(parse_event_type(label), Some(v));
            assert_eq!(parse_event_type(&label.to_uppercase()), Some(v));
            assert_eq!(parse_event_type(&label.to_lowercase()), Some(v));
        }
    }
}

#[test]
fn place_labels_parse_back_in_any_case() {
    for v in -1..=20 {
        if let Some(label) = anan::gramps::enums::place_type_label(v) {
            assert_eq!(parse_place_type(label), Some(v));
            assert_eq!(parse_place_type(&label.to_uppercase()), Some(v));
            assert_eq!(parse_place_type(&label.to_lowercase()), Some(v));
        }
    }
}

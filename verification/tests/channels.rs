use channel_bot::channels::{
    dump_to_csv_file, ensure_seed_file, is_subscription_active, replace_all_from_chats_export_csv,
    replace_all_from_csv, CsvErrorOf, SEED_TEMPLATE,
};

fn channel(id: i64, title: &str, username: Option<&str>) -> (i64, String, Option<String>) {
    (id, title.to_string(), username.map(|s| s.to_string()))
}

#[test]
fn subscriptions_end_at_their_moment() {
    assert!(is_subscription_active(Some(11), 10));
    assert!(!is_subscription_active(Some(10), 10));
    assert!(!is_subscription_active(None, 10));
}

#[test]
fn channels_are_read() {
    let rows = replace_all_from_csv("id;title;username\n# note\n\n1;One;@one\n-2; Two ;\n3;Three\n");
    assert_eq!(
        rows.unwrap(),
        vec![channel(1, "One", Some("one")), channel(-2, "Two", None), channel(3, "Three", None)]
    );
}

#[test]
fn negative_id_on_the_first_line_is_a_channel() {
    assert_eq!(
        replace_all_from_csv("-100;A;@a").unwrap(),
        vec![channel(-100, "A", Some("a"))]
    );
    assert_eq!(
        replace_all_from_csv("-5;Five;\n6;Six;").unwrap(),
        vec![channel(-5, "Five", None), channel(6, "Six", None)]
    );
}

#[test]
fn first_line_may_head_the_columns() {
    for head in ["ID;title", "channel id;title;username", "-;t", ";t"] {
        let csv = format!("{head}\n6;Six;");
        assert_eq!(replace_all_from_csv(&csv).unwrap(), vec![channel(6, "Six", None)]);
    }
    assert_eq!(
        replace_all_from_csv("12x;T;\n6;Six;"),
        Err(CsvErrorOf::InvalidId { line: 1, id: "12x".to_string() })
    );
}

#[test]
fn invalid_id_is_refused_with_its_line() {
    assert_eq!(
        replace_all_from_csv("1;One;\nabc;Two;"),
        Err(CsvErrorOf::InvalidId { line: 2, id: "abc".to_string() })
    );
}

#[test]
fn missing_title_is_refused_with_its_line() {
    assert_eq!(replace_all_from_csv("1;;x"), Err(CsvErrorOf::TitleRequired { line: 1 }));
}

#[test]
fn exported_chats_are_read() {
    let rows = replace_all_from_chats_export_csv("type;id;title;username\nChannel;-7;News;@news\n");
    assert_eq!(
        rows.unwrap(),
        vec![(-7, "News".to_string(), Some("news".to_string()), "channel".to_string())]
    );
    assert!(matches!(
        replace_all_from_chats_export_csv("bot;?;B;"),
        Err(CsvErrorOf::InvalidId { line: 1, .. })
    ));
}

#[test]
fn dump_is_read_back_again() {
    let rows = vec![channel(12, "Новости", Some("news")), channel(-3, "Talk", None)];
    let file = dump_to_csv_file(&rows);
    assert_eq!(
        file.text,
        "# id;title;username\n# username is optional (without @). One channel per line.\n12;Новости;news\n-3;Talk;\n"
    );
    assert_eq!(file.count, 2);
    assert_eq!(replace_all_from_csv(&file.text).unwrap(), rows);
}

#[test]
fn seed_file_is_left_alone_or_made() {
    assert!(ensure_seed_file(true, &Vec::new()).is_none());
    let template = ensure_seed_file(false, &Vec::new()).unwrap();
    assert_eq!(template.text, SEED_TEMPLATE);
    assert_eq!(template.count, 0);
    let seeded = ensure_seed_file(false, &vec![channel(1, "One", None)]).unwrap();
    assert_eq!(seeded.count, 1);
}

use diff_push::Subscription;
use diff_push::has_url_changed;
use diff_push::json::parse_sub_json;
use diff_push::json::write_sub_json;
use diff_push::kv::Registry;
use diff_push::kv::site_key;
use diff_push::kv::sub_key;
use diff_push::kv::sub_prefix;
use diff_push::kv::url_of_site_key;

fn s(x: &str) -> String {
    x.to_string()
}

#[test]
fn key_schema_strings() {
    assert_eq!(site_key(&s("https://a.example/x")), "site:https://a.example/x");
    assert_eq!(sub_key(&s("u"), &s("PK")), "sub:u:PK");
    assert_eq!(sub_prefix(&s("u")), "sub:u:");
}

#[test]
fn site_key_url_round_trip() {
    let key = site_key(&s("https://a.example/x"));
    assert_eq!(url_of_site_key(&key).unwrap(), "https://a.example/x");
    assert!(url_of_site_key(&s("sub:u:PK")).is_none());
    assert!(url_of_site_key(&s("sit")).is_none());
}

#[test]
fn registry_get_put_overwrite_delete() {
    let mut reg = Registry::new();
    assert!(reg.get(&s("k")).is_none());
    reg.put(s("k"), s("v1"));
    assert_eq!(reg.get(&s("k")).unwrap(), "v1");
    reg.put(s("k"), s("v2"));
    assert_eq!(reg.get(&s("k")).unwrap(), "v2");
    reg.delete(&s("k"));
    assert!(reg.get(&s("k")).is_none());
    // deleting an absent key is a quiet no-op
    reg.delete(&s("k"));
    assert!(reg.get(&s("k")).is_none());
}

#[test]
fn registry_lists_by_prefix_without_duplicates() {
    let mut reg = Registry::new();
    reg.put(s("sub:u:A"), s("1"));
    reg.put(s("sub:u:B"), s("2"));
    reg.put(s("sub:v:C"), s("3"));
    reg.put(s("site:u"), s("4"));
    reg.put(s("sub:u:A"), s("5"));
    let mut keys = reg.keys_for_prefix(&s("sub:u:"));
    keys.sort();
    assert_eq!(keys, vec![s("sub:u:A"), s("sub:u:B")]);
    let all = reg.keys_for_prefix(&s(""));
    assert_eq!(all.len(), 4);
}

#[test]
fn sub_record_round_trips() {
    let sub = Subscription {
        diff: s("https://a.example/x"),
        endpoint: s("https://push.example.net/send/abc"),
        auth: s("BTBZMqHH6r4Tts7J_aSIgg"),
        p256dh: s("BCVx"),
    };
    let text = write_sub_json(&sub);
    assert_eq!(
        text,
        "{\"diff\":\"https://a.example/x\",\"endpoint\":\"https://push.example.net/send/abc\",\
         \"auth\":\"BTBZMqHH6r4Tts7J_aSIgg\",\"p256dh\":\"BCVx\"}"
    );
    let back = parse_sub_json(&text).unwrap();
    assert_eq!(back.diff, sub.diff);
    assert_eq!(back.endpoint, sub.endpoint);
    assert_eq!(back.auth, sub.auth);
    assert_eq!(back.p256dh, sub.p256dh);
}

#[test]
fn sub_record_round_trips_with_escapes() {
    let sub = Subscription {
        diff: s("a\"b\\c"),
        endpoint: s("e"),
        auth: s("a"),
        p256dh: s("p"),
    };
    let text = write_sub_json(&sub);
    let back = parse_sub_json(&text).unwrap();
    assert_eq!(back.diff, "a\"b\\c");
    assert_eq!(back.endpoint, "e");
}

#[test]
fn malformed_records_are_rejected() {
    assert!(parse_sub_json("").is_none());
    assert!(parse_sub_json("{}").is_none());
    assert!(parse_sub_json("{\"diff\":\"a\"}").is_none());
    assert!(parse_sub_json("{\"diff\":\"a\",\"endpoint\":\"e\",\"auth\":\"x\",\"p256dh\":\"p\"} ")
        .is_none());
    assert!(parse_sub_json("{\"diff\":\"a\\q\",\"endpoint\":\"e\",\"auth\":\"x\",\"p256dh\":\"p\"}")
        .is_none());
}

#[test]
fn change_decision() {
    assert!(!has_url_changed(&s("same"), &Some(s("same"))));
    assert!(has_url_changed(&s("old"), &Some(s("new"))));
    // a failed fetch is conservatively treated as a change
    assert!(has_url_changed(&s("old"), &None));
}

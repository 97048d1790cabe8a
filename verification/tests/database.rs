use omnipaxos_kv::database::Database;
use omnipaxos_kv::kv::KVCommand;
use omnipaxos_kv::string_map::StringMap;
use std::collections::HashMap;

fn put(key: &str, value: &str) -> KVCommand {
    KVCommand::Put(key.to_string(), value.to_string())
}

fn get(key: &str) -> KVCommand {
    KVCommand::Get(key.to_string())
}

fn delete(key: &str) -> KVCommand {
    KVCommand::Delete(key.to_string())
}

fn cas(key: &str, expected: &str, new_value: &str) -> KVCommand {
    KVCommand::Cas(key.to_string(), expected.to_string(), new_value.to_string())
}

fn empty() -> Database {
    Database::new("db.json".to_string(), None)
}

fn members(image: &str) -> HashMap<String, String> {
    serde_json::from_str(image).unwrap()
}

#[test]
fn get_after_put_finds_the_value() {
    let mut d = empty();
    let r = d.handle_command(put("a", "1"));
    assert_eq!(r.answer, None);
    let r = d.handle_command(get("a"));
    assert_eq!(r.answer, Some(Some("1".to_string())));
    assert_eq!(r.image, None);
}

#[test]
fn put_replaces_the_value() {
    let mut d = empty();
    d.handle_command(put("a", "1"));
    d.handle_command(put("a", "2"));
    assert_eq!(d.handle_command(get("a")).answer, Some(Some("2".to_string())));
}

#[test]
fn get_of_an_absent_key_finds_nothing() {
    let mut d = empty();
    let r = d.handle_command(get("a"));
    assert_eq!(r.answer, Some(None));
    assert_eq!(r.image, None);
}

#[test]
fn get_after_delete_finds_nothing() {
    let mut d = empty();
    d.handle_command(put("a", "1"));
    let r = d.handle_command(delete("a"));
    assert_eq!(r.answer, None);
    assert_eq!(members(&r.image.unwrap()), HashMap::new());
    assert_eq!(d.handle_command(get("a")).answer, Some(None));
}

#[test]
fn delete_of_an_absent_key_still_writes_the_image() {
    let mut d = empty();
    let r = d.handle_command(delete("a"));
    assert_eq!(r.answer, None);
    assert_eq!(r.image, Some("{}".to_string()));
}

#[test]
fn other_keys_stay() {
    let mut d = empty();
    for (k, v) in [("a", "1"), ("b", "2"), ("c", "3")] {
        d.handle_command(put(k, v));
    }
    d.handle_command(delete("a"));
    d.handle_command(put("b", "9"));
    assert_eq!(d.handle_command(get("a")).answer, Some(None));
    assert_eq!(d.handle_command(get("b")).answer, Some(Some("9".to_string())));
    assert_eq!(d.handle_command(get("c")).answer, Some(Some("3".to_string())));
}

#[test]
fn cas_takes_place_where_the_value_is_the_expected_one() {
    let mut d = empty();
    d.handle_command(put("a", "1"));
    let r = d.handle_command(cas("a", "1", "2"));
    assert_eq!(r.answer, Some(Some("ok".to_string())));
    assert_eq!(members(&r.image.unwrap())["a"], "2");
    assert_eq!(d.handle_command(get("a")).answer, Some(Some("2".to_string())));
}

#[test]
fn cas_on_another_value_is_a_conflict() {
    let mut d = empty();
    d.handle_command(put("a", "1"));
    let r = d.handle_command(cas("a", "3", "2"));
    assert_eq!(r.answer, Some(Some("conflict".to_string())));
    assert_eq!(r.image, None);
    assert_eq!(d.handle_command(get("a")).answer, Some(Some("1".to_string())));
}

#[test]
fn cas_on_an_absent_key_is_a_conflict() {
    let mut d = empty();
    let r = d.handle_command(cas("a", "", "2"));
    assert_eq!(r.answer, Some(Some("conflict".to_string())));
    assert_eq!(r.image, None);
    assert_eq!(d.handle_command(get("a")).answer, Some(None));
}

#[test]
fn image_loads_back() {
    let mut d = empty();
    d.handle_command(put("a", "plain"));
    d.handle_command(put("q\"\\\n\u{1}", "\u{20ac} \"x\""));
    d.handle_command(put("", ""));
    let image = d.persist();
    let expected = members(image.as_ref().unwrap());
    assert_eq!(expected.len(), 3);
    let mut e = Database::new("other.json".to_string(), image);
    assert_eq!(e.path(), "other.json");
    for (k, v) in expected {
        assert_eq!(e.handle_command(get(&k)).answer, Some(Some(v)));
    }
    assert_eq!(e.handle_command(get("q\"\\\n\u{1}")).answer, Some(Some("\u{20ac} \"x\"".to_string())));
}

#[test]
fn image_of_one_entry_is_exact() {
    let mut d = empty();
    let r = d.handle_command(put("k", "v"));
    assert_eq!(r.image, Some("{\"k\":\"v\"}".to_string()));
}

#[test]
fn file_follows_store() {
    let mut d = empty();
    let mut file: Option<String> = None;
    for command in [put("a", "1"), get("a"), cas("a", "0", "5"), cas("a", "1", "6"), delete("b"), put("c", "2")] {
        if let Some(image) = d.handle_command(command).image {
            file = Some(image);
        }
        let mut e = Database::new("db.json".to_string(), file.clone());
        for key in ["a", "b", "c"] {
            assert_eq!(e.handle_command(get(key)).answer, d.handle_command(get(key)).answer);
        }
    }
}

#[test]
fn unreadable_images_stand_for_the_empty_store() {
    for text in ["", "not json", "[1,2]", "{\"a\":1}", "{\"a\":\"1\"", "null"] {
        let d = Database::new("db.json".to_string(), Some(text.to_string()));
        assert_eq!(d.persist(), Some("{}".to_string()), "{text:?}");
    }
}

#[test]
fn later_member_of_an_image_counts() {
    let mut d = Database::new("db.json".to_string(), Some("{\"a\":\"1\",\"a\":\"2\"}".to_string()));
    assert_eq!(d.handle_command(get("a")).answer, Some(Some("2".to_string())));
}

#[test]
fn string_map_follows_a_hash_map() {
    let mut m = StringMap::new();
    let mut h: HashMap<String, String> = HashMap::new();
    for step in 0..200u32 {
        let key = format!("k{}", step * 7 % 23);
        if step % 3 == 0 {
            m.remove(&key);
            h.remove(&key);
        } else {
            m.insert(key.clone(), step.to_string());
            h.insert(key, step.to_string());
        }
        assert_eq!(m.entries().len(), h.len());
        for k in 0..23u32 {
            let key = format!("k{k}");
            assert_eq!(m.get(&key), h.get(&key));
        }
    }
}

use crypto_crawler::json::{JsonObject, Member};
use crypto_crawler::message::same_text;

fn member(key: &str, text: Option<&str>) -> Member {
    Member { key: key.to_string(), text: text.map(str::to_string) }
}

#[test]
fn an_object_is_read_by_key() {
    let object = JsonObject {
        members: vec![member("event", Some("trade")), member("data", None), member("", Some(""))],
    };
    assert!(object.contains_key("event"));
    assert!(object.contains_key("data"));
    assert!(object.contains_key(""));
    assert!(!object.contains_key("Event"));
    assert!(!object.contains_key("channel"));
    assert_eq!(Some(&"trade".to_string()), object.text_of("event"));
    assert_eq!(Some(&String::new()), object.text_of(""));
    assert_eq!(None, object.text_of("data"));
    assert_eq!(None, object.text_of("channel"));
}

#[test]
fn the_later_member_of_a_key_counts() {
    let object = JsonObject {
        members: vec![member("k", Some("first")), member("k", None), member("j", Some("x"))],
    };
    assert!(object.contains_key("k"));
    assert_eq!(None, object.text_of("k"));
    let object = JsonObject { members: vec![member("k", None), member("k", Some("last"))] };
    assert_eq!(Some(&"last".to_string()), object.text_of("k"));
    let empty = JsonObject { members: Vec::new() };
    assert!(!empty.contains_key("k"));
    assert_eq!(None, empty.text_of("k"));
}

#[test]
fn texts_are_compared_by_their_characters() {
    assert!(same_text("", ""));
    assert!(same_text("bts:error", "bts:error"));
    assert!(same_text("é€", "é€"));
    assert!(!same_text("bts:error", "bts:errors"));
    assert!(!same_text("a", "A"));
    assert!(!same_text("", " "));
}

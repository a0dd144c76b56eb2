use kafql_store::config::{parse_i32_str, parse_topics, split_str, topic_entry_of};

fn sorted(mut v: Vec<(String, i32)>) -> Vec<(String, i32)> {
    v.sort();
    v
}

#[test]
fn split_like_str_split() {
    assert_eq!(split_str("a,b,c", ','), vec!["a", "b", "c"]);
    assert_eq!(split_str("", ','), vec![""]);
    assert_eq!(split_str(",a,,", ','), vec!["", "a", "", ""]);
    assert_eq!(split_str("héllo:wörld", ':'), vec!["héllo", "wörld"]);
}

#[test]
fn parse_i32_like_std() {
    for s in ["0", "7", "-7", "+7", "007", "2147483647", "-2147483648", "", "-", "+", "12a", " 1",
              "2147483648", "-2147483649", "99999999999999999999", "1.0", "٣", "+-1"] {
        assert_eq!(parse_i32_str(s), s.parse::<i32>().ok(), "input {:?}", s);
    }
}

#[test]
fn topic_entries() {
    assert_eq!(topic_entry_of("topic1:3"), Some(("topic1".to_string(), 3)));
    assert_eq!(topic_entry_of("topic1:x"), Some(("topic1".to_string(), 1)));
    assert_eq!(topic_entry_of(":5"), Some(("".to_string(), 5)));
    assert_eq!(topic_entry_of("topic1"), None);
    assert_eq!(topic_entry_of("a:1:2"), None);
}

#[test]
fn parse_topics_readme_example() {
    assert_eq!(
        sorted(parse_topics("topic1:1,topic2:3")),
        vec![("topic1".to_string(), 1), ("topic2".to_string(), 3)]
    );
    assert_eq!(parse_topics("test:1"), vec![("test".to_string(), 1)]);
}

#[test]
fn parse_topics_drops_bad_pieces_and_defaults_counts() {
    assert_eq!(
        sorted(parse_topics("a:2,b,c:zz,,d:1:1")),
        vec![("a".to_string(), 2), ("c".to_string(), 1)]
    );
    assert!(parse_topics("").is_empty());
}

#[test]
fn parse_topics_later_duplicate_wins() {
    assert_eq!(parse_topics("a:1,b:2,a:5"), vec![("a".to_string(), 5), ("b".to_string(), 2)]);
}

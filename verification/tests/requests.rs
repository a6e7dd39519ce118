use tablebot::errors::DecodeError;
use tablebot::labels::{key_request_id, request_key};
use tablebot::queue::RequestQueue;
use tablebot::records::decode_record;

fn listed_ids(queue: &RequestQueue) -> Vec<String> {
    queue.list_pending().into_iter().map(|(id, _)| id).collect()
}

#[test]
fn enqueued_request_lives_until_completed() {
    let mut queue = RequestQueue::new();
    queue.enqueue_with(
        "ab12cd34".to_string(),
        "fix bug".to_string(),
        "".to_string(),
        "Table 7".to_string(),
        1234,
    );

    let stored = queue.get_help_request("ab12cd34").expect("present").expect("decodes");
    assert_eq!(stored.description, "fix bug");
    assert_eq!(stored.link, "");
    assert_eq!(stored.attribution, "Table 7");
    assert_eq!(stored.timestamp, 1234);
    assert!(stored.timestamp > 0);
    assert!(listed_ids(&queue).contains(&"ab12cd34".to_string()));

    queue.complete("ab12cd34");
    assert!(queue.get_help_request("ab12cd34").is_none());
    assert!(!listed_ids(&queue).contains(&"ab12cd34".to_string()));

    queue.complete("ab12cd34");
    assert!(queue.get_help_request("ab12cd34").is_none());
}

#[test]
fn listing_scenario_shows_and_hides_the_request() {
    let mut queue = RequestQueue::new();
    queue.enqueue_with(
        "ab12cd34".to_string(),
        "fix bug".to_string(),
        "".to_string(),
        "user#1234".to_string(),
        1700000000000,
    );

    let listing = queue.list_pending();
    let entry = listing.iter().find(|(id, _)| id == "ab12cd34").expect("listed");
    assert_eq!(entry.1.description, "fix bug");
    assert_eq!(entry.1.link, "");
    assert_eq!(entry.1.attribution, "user#1234");
    assert_eq!(entry.1.timestamp, 1700000000000);

    queue.complete("ab12cd34");
    assert!(queue.list_pending().iter().all(|(id, _)| id != "ab12cd34"));
}

#[test]
fn listing_skips_malformed_records() {
    let mut queue = RequestQueue::new();
    queue.insert_raw(
        "short001".to_string(),
        vec!["only".to_string(), "two".to_string()],
    );
    queue.insert_raw(
        "zerots02".to_string(),
        vec![
            "desc".to_string(),
            "link".to_string(),
            "Table 3".to_string(),
            "0".to_string(),
        ],
    );
    queue.insert_raw(
        "garbled3".to_string(),
        vec![
            "desc".to_string(),
            "link".to_string(),
            "Table 3".to_string(),
            "not-a-number".to_string(),
        ],
    );
    queue.enqueue_with(
        "good0004".to_string(),
        "desc".to_string(),
        "link".to_string(),
        "Table 3".to_string(),
        99,
    );

    let listing = queue.list_pending();
    assert_eq!(listing.len(), 1);
    assert_eq!(listing[0].0, "good0004");
}

#[test]
fn decode_errors_name_their_reason() {
    let three = vec!["a".to_string(), "b".to_string(), "c".to_string()];
    assert_eq!(decode_record(&three).unwrap_err(), DecodeError::WrongShape);

    let zero = vec![
        "a".to_string(),
        "b".to_string(),
        "c".to_string(),
        "0".to_string(),
    ];
    assert_eq!(decode_record(&zero).unwrap_err(), DecodeError::BadTimestamp);

    let garbled = vec![
        "a".to_string(),
        "b".to_string(),
        "c".to_string(),
        "12x4".to_string(),
    ];
    assert_eq!(decode_record(&garbled).unwrap_err(), DecodeError::BadTimestamp);

    let negative = vec![
        "a".to_string(),
        "b".to_string(),
        "c".to_string(),
        "-5".to_string(),
    ];
    assert_eq!(decode_record(&negative).unwrap().timestamp, -5);
}

#[test]
fn enqueue_draws_a_fresh_alphanumeric_id() {
    let mut queue = RequestQueue::new();
    let id = queue.enqueue(
        "desc".to_string(),
        "link".to_string(),
        "Table 1".to_string(),
    );
    assert_eq!(id.len(), 8);
    assert!(id.chars().all(|c| c.is_ascii_alphanumeric()));
    let stored = queue.get_help_request(&id).expect("present").expect("decodes");
    assert!(stored.timestamp > 0);
}

#[test]
fn add_help_request_stores_the_given_timestamp() {
    let mut queue = RequestQueue::new();
    let id = queue.add_help_request(
        "desc".to_string(),
        "link".to_string(),
        "Table 2".to_string(),
        777,
    );
    let stored = queue.get_help_request(&id).unwrap().unwrap();
    assert_eq!(stored.timestamp, 777);
}

#[test]
fn enqueue_with_overwrites_the_same_id() {
    let mut queue = RequestQueue::new();
    queue.enqueue_with(
        "same0000".to_string(),
        "first".to_string(),
        "".to_string(),
        "Table 1".to_string(),
        1,
    );
    queue.enqueue_with(
        "same0000".to_string(),
        "second".to_string(),
        "".to_string(),
        "Table 1".to_string(),
        2,
    );
    assert_eq!(queue.list_pending().len(), 1);
    let stored = queue.get_help_request("same0000").unwrap().unwrap();
    assert_eq!(stored.description, "second");
}

#[test]
fn request_keys_round_trip() {
    assert_eq!(request_key("ab12cd34"), "help_request:ab12cd34");
    assert_eq!(
        key_request_id("help_request:ab12cd34").as_deref(),
        Some("ab12cd34")
    );
    assert_eq!(key_request_id("help_request:short"), None);
    assert_eq!(key_request_id("other_prefix:ab12cd34"), None);
    assert_eq!(
        key_request_id("help_request:ab12cd34xy").as_deref(),
        Some("ab12cd34")
    );
}

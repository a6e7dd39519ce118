use tablebot::directory::Directory;
use tablebot::labels::{channel_name, table_label, teamless_label};
use tablebot::messages::{
    completion_confirmation, emergency_message, format_request_entry, join_confirmation,
    leave_confirmation, listing_header, mention, not_mentor_message, report_message,
    request_attribution, request_confirmation, request_entry_text, request_notification,
    role_mention,
};
use tablebot::records::HelpRequest;
use tablebot::rng::{random_color, random_string};
use tablebot::text::{contains_str, i64_to_string, parse_i64, parse_u64, starts_with, str_eq,
    u64_to_string};

#[test]
fn labels_derive_from_the_number() {
    assert_eq!(table_label(7), "Table 7");
    assert_eq!(table_label(123), "Table 123");
    assert_eq!(channel_name(7), "table-7");
    assert_eq!(channel_name(123), "table-123");
    assert_eq!(teamless_label(), "Teamless");
}

#[test]
fn decimal_rendering_is_exact() {
    assert_eq!(u64_to_string(0), "0");
    assert_eq!(u64_to_string(18446744073709551615), "18446744073709551615");
    assert_eq!(i64_to_string(0), "0");
    assert_eq!(i64_to_string(-42), "-42");
    assert_eq!(i64_to_string(i64::MIN), "-9223372036854775808");
    assert_eq!(i64_to_string(i64::MAX), "9223372036854775807");
}

#[test]
fn parsing_is_exact() {
    assert_eq!(parse_u64("0"), Some(0));
    assert_eq!(parse_u64("007"), Some(7));
    assert_eq!(parse_u64("18446744073709551615"), Some(u64::MAX));
    assert_eq!(parse_u64("18446744073709551616"), None);
    assert_eq!(parse_u64(""), None);
    assert_eq!(parse_u64("12a"), None);
    assert_eq!(parse_u64("-1"), None);
    assert_eq!(parse_i64("-42"), Some(-42));
    assert_eq!(parse_i64("9223372036854775807"), Some(i64::MAX));
    assert_eq!(parse_i64("9223372036854775808"), None);
    assert_eq!(parse_i64("-9223372036854775808"), Some(i64::MIN));
    assert_eq!(parse_i64("-9223372036854775809"), None);
    assert_eq!(parse_i64("-"), None);
    assert_eq!(parse_i64(""), None);
}

#[test]
fn substring_search_matches_std() {
    assert!(str_eq("Table 7", "Table 7"));
    assert!(!str_eq("Table 7", "Table 8"));
    assert!(starts_with("Table 7", "Table "));
    assert!(!starts_with("a Table 7", "Table "));
    assert!(contains_str("a Table 7", "Table "));
    assert!(contains_str("Table 7", ""));
    assert!(!contains_str("user#1234", "Table "));
}

#[test]
fn confirmations_spell_the_action() {
    assert_eq!(mention(42), "<@42>");
    assert_eq!(role_mention(9), "<@&9>");
    assert_eq!(
        join_confirmation(42, 7),
        "Successfully added <@42> to `Table 7`."
    );
    assert_eq!(
        leave_confirmation(42, 7),
        "Successfully removed <@42> from `Table 7`."
    );
    assert_eq!(
        request_confirmation(42),
        "Successfully requested help for <@42>."
    );
    assert_eq!(
        completion_confirmation("ab12cd34", 42),
        "Deleted help request ab12cd34 for <@42>."
    );
    assert_eq!(
        listing_header(),
        "Here is a list of all the uncompleted help requests:"
    );
}

#[test]
fn helper_only_commands_name_their_refusal() {
    assert_eq!(
        not_mentor_message(42),
        "<@42> You must be a mentor to run this command!"
    );
}

#[test]
fn attribution_is_the_group_label_or_the_mention() {
    let mut directory = Directory::new();
    assert_eq!(request_attribution(&directory, 42), "<@42>");
    directory.set_group(42, "Table 7".to_string());
    assert_eq!(request_attribution(&directory, 42), "Table 7");
    assert_eq!(request_attribution(&directory, 43), "<@43>");
}

#[test]
fn notification_names_the_table_only_when_assigned() {
    assert_eq!(
        request_notification(42, "Table 7"),
        "New help request from <@42> in Table 7"
    );
    assert_eq!(
        request_notification(42, "user#1234"),
        "New help request from <@42>"
    );
}

#[test]
fn reports_carry_reporter_channel_and_text() {
    assert_eq!(
        report_message(42, "spam", "general"),
        "<@42> reported message 'spam' from channel #general"
    );
    assert_eq!(
        emergency_message(7, 6, 42, "general", "help"),
        "(<@&7> <@&6>) **EMERGENCY!!** <@42> reported an emergency from #general with message 'help'"
    );
}

#[test]
fn request_entry_uses_the_clock_rendering() {
    let request = HelpRequest {
        description: "fix bug".to_string(),
        link: "https://example.test".to_string(),
        attribution: "Table 7".to_string(),
        timestamp: 1000,
    };
    let explicit = format_request_entry(&request, "some time");
    assert_eq!(
        explicit,
        "**Timestamp**: some time\n**Description**: fix bug\n**Link**: https://example.test\n**For**: Table 7"
    );
    let rendered = request_entry_text(&request);
    assert!(rendered.contains("**Timestamp**: 1970-01-01 00:00:01 UTC"));
    assert!(rendered.contains("**Description**: fix bug"));
}

#[test]
fn random_string_is_alphanumeric_of_the_asked_length() {
    let s = random_string(8);
    assert_eq!(s.len(), 8);
    assert!(s.chars().all(|c| c.is_ascii_alphanumeric()));
    assert_eq!(random_string(0), "");
}

#[test]
fn random_color_comes_from_the_palette() {
    let palette = [
        0x6FC6E2, 0x7289DA, 0x206694, 0xC27C0E, 0x607D8B, 0xAD1457, 0xA84300, 0x71368A, 0x11806A,
        0x546E7A, 0xFAB81E, 0x8882C4, 0x11CA80, 0xF1C40F, 0xBADC58, 0x979C9F, 0x95A5A6, 0xE91E63,
        0xE68397, 0xE67E22, 0x9B59B6, 0xE74C3C, 0x7596FF, 0xF6DBD8, 0x1ABC9C,
    ];
    for _ in 0..16 {
        let color: u32 = random_color();
        assert!(palette.contains(&color));
    }
}

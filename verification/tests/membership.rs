use tablebot::config::EventConfig;
use tablebot::coordinator::{join, leave, membership_state, GroupState};
use tablebot::directory::Directory;
use tablebot::errors::MembershipError;
use tablebot::labels::teamless_label;
use tablebot::platform::Platform;
use tablebot::rng::random_color;

fn fresh_event() -> (Platform, Directory, EventConfig) {
    let mut platform = Platform::new(1000);
    let teamless_role_id = platform.create_role(teamless_label(), 0x999999, 0);
    let cfg = EventConfig {
        tables_category_id: 1,
        reports_channel_id: 2,
        mentors_channel_id: 3,
        everyone_role_id: 4,
        teamless_role_id,
        bot_role_id: 5,
        mentor_role_id: 6,
        manager_role_id: 7,
    };
    (platform, Directory::new(), cfg)
}

fn count_roles_labeled(platform: &Platform, label: &str) -> usize {
    platform.roles.iter().filter(|r| r.label == label).count()
}

fn count_channels_named(platform: &Platform, name: &str) -> usize {
    platform.channels.iter().filter(|c| c.name == name).count()
}

#[test]
fn join_creates_table_role_and_channel() {
    let (mut platform, mut directory, cfg) = fresh_event();
    platform.grant_role(42, cfg.teamless_role_id);

    let receipt = join(&mut platform, &mut directory, &cfg, 42, 7, random_color())
        .expect("teamless participant joins");

    assert_eq!(receipt.label, "Table 7");
    assert!(receipt.handle.created_role && receipt.handle.created_channel);
    assert!(platform.find_role_by_label("Table 7").is_some());
    assert!(platform.find_channel_by_name("table-7").is_some());
    assert!(platform.holds_role(42, receipt.handle.role_id));
    assert!(!platform.holds_role(42, cfg.teamless_role_id));
    assert_eq!(directory.get_group(42).map(|s| s.as_str()), Some("Table 7"));
}

#[test]
fn join_twice_provisions_once() {
    let (mut platform, mut directory, cfg) = fresh_event();
    platform.grant_role(42, cfg.teamless_role_id);
    platform.grant_role(43, cfg.teamless_role_id);

    let first = join(&mut platform, &mut directory, &cfg, 42, 7, random_color()).unwrap();
    let second = join(&mut platform, &mut directory, &cfg, 43, 7, random_color()).unwrap();

    assert_eq!(count_roles_labeled(&platform, "Table 7"), 1);
    assert_eq!(count_channels_named(&platform, "table-7"), 1);
    assert_eq!(second.handle.role_id, first.handle.role_id);
    assert_eq!(second.handle.channel_id, first.handle.channel_id);
    assert!(!second.handle.created_role);
    assert!(!second.handle.created_channel);
    assert!(platform.holds_role(43, first.handle.role_id));
}

#[test]
fn join_when_already_grouped_fails_and_changes_nothing() {
    let (mut platform, mut directory, cfg) = fresh_event();
    platform.grant_role(42, cfg.teamless_role_id);
    join(&mut platform, &mut directory, &cfg, 42, 7, random_color()).unwrap();

    let roles_before = platform.roles.len();
    let channels_before = platform.channels.len();
    let grants_before = platform.grants.len();
    let records_before = directory.entries.len();

    let result = join(&mut platform, &mut directory, &cfg, 42, 8, random_color());

    assert_eq!(result.unwrap_err(), MembershipError::AlreadyGrouped);
    assert_eq!(platform.roles.len(), roles_before);
    assert_eq!(platform.channels.len(), channels_before);
    assert_eq!(platform.grants.len(), grants_before);
    assert_eq!(directory.entries.len(), records_before);
    assert_eq!(directory.get_group(42).map(|s| s.as_str()), Some("Table 7"));
    assert!(platform.find_role_by_label("Table 8").is_none());
}

#[test]
fn join_then_leave_returns_to_teamless() {
    let (mut platform, mut directory, cfg) = fresh_event();
    platform.grant_role(42, cfg.teamless_role_id);
    let joined = join(&mut platform, &mut directory, &cfg, 42, 7, random_color()).unwrap();

    let left = leave(&mut platform, &mut directory, &cfg, 42, 7).expect("member leaves");

    assert_eq!(left.label, "Table 7");
    assert_eq!(left.role_id, joined.handle.role_id);
    assert!(directory.get_group(42).is_none());
    assert!(!platform.holds_role(42, joined.handle.role_id));
    assert!(platform.holds_role(42, cfg.teamless_role_id));
    assert_eq!(count_roles_labeled(&platform, "Table 7"), 1);
    assert_eq!(count_channels_named(&platform, "table-7"), 1);
}

#[test]
fn leave_without_group_fails_and_changes_nothing() {
    let (mut platform, mut directory, cfg) = fresh_event();
    platform.grant_role(50, cfg.teamless_role_id);
    let grants_before = platform.grants.len();

    let result = leave(&mut platform, &mut directory, &cfg, 50, 7);

    assert_eq!(result.unwrap_err(), MembershipError::NotInGroup);
    assert_eq!(platform.grants.len(), grants_before);
    assert!(platform.holds_role(50, cfg.teamless_role_id));
}

#[test]
fn leave_of_other_group_fails_and_changes_nothing() {
    let (mut platform, mut directory, cfg) = fresh_event();
    platform.grant_role(42, cfg.teamless_role_id);
    platform.grant_role(43, cfg.teamless_role_id);
    let joined = join(&mut platform, &mut directory, &cfg, 42, 7, random_color()).unwrap();
    join(&mut platform, &mut directory, &cfg, 43, 9, random_color()).unwrap();

    let missing_table = leave(&mut platform, &mut directory, &cfg, 42, 8);
    assert_eq!(missing_table.unwrap_err(), MembershipError::NotInGroup);

    let wrong_table = leave(&mut platform, &mut directory, &cfg, 42, 9);
    assert_eq!(wrong_table.unwrap_err(), MembershipError::NotInGroup);

    assert!(platform.holds_role(42, joined.handle.role_id));
    assert_eq!(directory.get_group(42).map(|s| s.as_str()), Some("Table 7"));
}

#[test]
fn membership_state_trusts_the_platform() {
    let (mut platform, mut directory, cfg) = fresh_event();

    // The teamless grant wins over a stale directory record.
    platform.grant_role(42, cfg.teamless_role_id);
    directory.set_group(42, "Table 5".to_string());
    assert!(matches!(
        membership_state(&platform, &directory, &cfg, 42),
        GroupState::Teamless
    ));

    // An assigned participant is named by the directory record.
    directory.clear_group(42);
    let receipt = join(&mut platform, &mut directory, &cfg, 42, 5, random_color()).unwrap();
    match membership_state(&platform, &directory, &cfg, 42) {
        GroupState::Assigned(label) => assert_eq!(label, "Table 5"),
        GroupState::Teamless => panic!("participant 42 is assigned"),
    }

    // A lost directory record is recovered from the granted table role.
    directory.clear_group(42);
    match membership_state(&platform, &directory, &cfg, 42) {
        GroupState::Assigned(label) => assert_eq!(label, "Table 5"),
        GroupState::Teamless => panic!("the granted role names the group"),
    }

    // Without any signal the participant counts as teamless.
    platform.revoke_role(42, receipt.handle.role_id);
    assert!(matches!(
        membership_state(&platform, &directory, &cfg, 42),
        GroupState::Teamless
    ));
}

#[test]
fn membership_error_messages() {
    assert_eq!(
        MembershipError::AlreadyGrouped.message(),
        "You're already part of a team!"
    );
    assert_eq!(MembershipError::NotInGroup.message(), "You're not part of that team!");
}

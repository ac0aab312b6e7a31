use delivery_load::mode::{select_mode, Mode};
use delivery_load::topic::{get_topic, topics, TOPIC_COUNT};

#[test]
fn rotation_has_four_named_topics() {
    assert_eq!(TOPIC_COUNT, 4);
    assert_eq!(get_topic(0), "persistent://example/delivery/notifications");
    assert_eq!(get_topic(1), "persistent://example/delivery/notifications-retries");
    assert_eq!(get_topic(2), "persistent://example/delivery/notifications-enterprise");
    assert_eq!(
        get_topic(3),
        "persistent://example/delivery/notifications-enterprise-retries"
    );
}

#[test]
fn rotation_repeats_with_period_four() {
    assert_eq!(get_topic(0), get_topic(4));
    for n in 0..64usize {
        assert_eq!(get_topic(n), get_topic(n + 4));
        assert_ne!(get_topic(n), get_topic(n + 1));
        assert_ne!(get_topic(n), get_topic(n + 2));
        assert_ne!(get_topic(n), get_topic(n + 3));
    }
}

#[test]
fn rotation_holds_at_the_largest_sequence_number() {
    assert_eq!(get_topic(usize::MAX), get_topic(3));
    assert_eq!(get_topic(usize::MAX - 3), get_topic(0));
}

#[test]
fn all_topics_are_listed_in_slot_order() {
    let all = topics();
    assert_eq!(all.len(), 4);
    for slot in 0..4usize {
        assert_eq!(all[slot], get_topic(slot));
    }
}

#[test]
fn mode_switch_selects_by_exact_name() {
    assert_eq!(select_mode(Some("PRODUCER")), Some(Mode::Producer));
    assert_eq!(select_mode(Some("CONSUMER")), Some(Mode::Consumer));
    assert_eq!(select_mode(Some("producer")), None);
    assert_eq!(select_mode(Some("CONSUMER ")), None);
    assert_eq!(select_mode(Some("")), None);
    assert_eq!(select_mode(None), None);
}

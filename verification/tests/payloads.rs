use delivery_load::ident::{BatchId, ItemId, TEXT_LEN};
use delivery_load::payload::{batch_key, tag, SEPARATOR};

#[test]
fn identifier_text_is_hyphenated_lower_hex() {
    let id = BatchId { bits: 0xa1a2a3a4b1b2c1c2d1d2d3d4d5d6d7d8 };
    assert_eq!(id.text(), "a1a2a3a4-b1b2-c1c2-d1d2-d3d4d5d6d7d8");
    let item = ItemId { bits: 0x0123456789abcdef0123456789abcdef };
    assert_eq!(item.text(), "01234567-89ab-cdef-0123-456789abcdef");
    assert_eq!(BatchId { bits: 0 }.text(), "00000000-0000-0000-0000-000000000000");
    assert_eq!(BatchId { bits: u128::MAX }.text(), "ffffffff-ffff-ffff-ffff-ffffffffffff");
    assert_eq!(BatchId { bits: 1 }.text(), "00000000-0000-0000-0000-000000000001");
    assert_eq!(id.text().chars().count(), TEXT_LEN);
}

#[test]
fn fresh_identifiers_carry_version_and_variant() {
    for _ in 0..32 {
        let id = BatchId::fresh();
        assert_eq!((id.bits >> 76) & 0xf, 4);
        assert_eq!((id.bits >> 62) & 0x3, 2);
        let text = id.text();
        let chars: Vec<char> = text.chars().collect();
        assert_eq!(chars.len(), 36);
        assert_eq!(chars[14], '4');
        assert!(matches!(chars[19], '8' | '9' | 'a' | 'b'));
        assert!(!text.contains(SEPARATOR));
        let item = ItemId::fresh();
        assert_eq!((item.bits >> 76) & 0xf, 4);
        assert_eq!((item.bits >> 62) & 0x3, 2);
    }
}

#[test]
fn fresh_identifiers_differ() {
    let a = BatchId::fresh();
    let b = BatchId::fresh();
    assert_ne!(a, b);
}

#[test]
fn tag_joins_batch_and_item_with_a_colon() {
    assert_eq!(tag("batch", "item"), "batch:item");
    assert_eq!(tag("", ""), ":");
    assert_eq!(tag("a", ""), "a:");
    let batch = BatchId { bits: 0xa1a2a3a4b1b2c1c2d1d2d3d4d5d6d7d8 };
    let item = ItemId { bits: 2 };
    assert_eq!(
        tag(&batch.text(), &item.text()),
        "a1a2a3a4-b1b2-c1c2-d1d2-d3d4d5d6d7d8:00000000-0000-0000-0000-000000000002"
    );
}

#[test]
fn batch_key_is_what_precedes_the_first_colon() {
    assert_eq!(batch_key("batch:item"), Some("batch".to_string()));
    assert_eq!(batch_key("a:b:c"), Some("a".to_string()));
    assert_eq!(batch_key(":item"), Some(String::new()));
    assert_eq!(batch_key("batch:"), Some("batch".to_string()));
    assert_eq!(batch_key(":"), Some(String::new()));
}

#[test]
fn batch_key_of_a_payload_without_colon_is_none() {
    assert_eq!(batch_key("no separator here"), None);
    assert_eq!(batch_key(""), None);
    assert_eq!(batch_key("a1a2a3a4-b1b2-c1c2-d1d2-d3d4d5d6d7d8"), None);
}

#[test]
fn batch_key_counts_characters_not_bytes() {
    assert_eq!(batch_key("héllo wörld:x"), Some("héllo wörld".to_string()));
    assert_eq!(batch_key("日本語:テスト"), Some("日本語".to_string()));
    assert_eq!(batch_key("日本語"), None);
}

#[test]
fn tagged_payload_gives_its_batch_back() {
    for _ in 0..16 {
        let batch = BatchId::fresh();
        let item = ItemId::fresh();
        let payload = tag(&batch.text(), &item.text());
        assert_eq!(batch_key(&payload), Some(batch.text()));
    }
}

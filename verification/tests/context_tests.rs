use cqrs_rust_lib::context::{AuthenticatedUser, CqrsContext};
use cqrs_rust_lib::string_map::StringMap;

#[test]
fn test_next_uuid() {
    let context = CqrsContext::default();
    let uuid = context.next_uuid();
    assert_eq!(uuid.len(), 36);
}

#[test]
fn test_next_uuid_is_valid_v4_text() {
    for context in [
        CqrsContext::default(),
        CqrsContext::default().with_rand_bytes([0x5a; 16]),
    ] {
        let uuid = context.next_uuid();
        let chars: Vec<char> = uuid.chars().collect();
        assert_eq!(chars.len(), 36);
        for (i, c) in chars.iter().enumerate() {
            if i == 8 || i == 13 || i == 18 || i == 23 {
                assert_eq!(*c, '-');
            } else {
                assert!(c.is_ascii_hexdigit() && !c.is_ascii_uppercase());
            }
        }
        assert_eq!(chars[14], '4');
        assert!(matches!(chars[19], '8' | '9' | 'a' | 'b'));
    }
}

#[test]
fn test_next_uuid_with_rand_bytes() {
    let context = CqrsContext::default().with_rand_bytes([0; 16]);
    let uuid = context.next_uuid();
    assert_eq!(uuid, "00000000-0000-4000-8000-000000000000".to_string());
}

#[test]
fn test_next_uuid_uses_pinned_bytes() {
    let context = CqrsContext::default().with_rand_bytes([0xff; 16]);
    let uuid = context.next_uuid();
    // version nibble forced to 4, variant bits to 0b10
    assert_eq!(uuid, "ffffffff-ffff-4fff-bfff-ffffffffffff".to_string());
}

#[test]
fn test_current_user_defaults_to_anonymous() {
    let context = CqrsContext::new(None);
    assert_eq!(context.current_user(), "anonymous");
    let named = CqrsContext::new(Some("bob".to_string()));
    assert_eq!(named.current_user(), "bob");
}

#[test]
fn test_request_id_builders() {
    let context = CqrsContext::default().with_request_id("req-1".to_string());
    assert_eq!(context.request_id(), "req-1");
    let next = context.with_next_request_id();
    assert_eq!(next.request_id().len(), 36);
}

#[test]
fn test_context_metadata_bag() {
    let mut bag = StringMap::new();
    bag.insert("tenant".to_string(), "acme".to_string());
    let context = CqrsContext::default().with_metadata(bag);
    assert_eq!(
        context.metadata(&"tenant".to_string()),
        Some(&"acme".to_string())
    );
    assert_eq!(context.metadata(&"missing".to_string()), None);
    let whole = context.metadata_bag().expect("bag was attached");
    assert_eq!(whole.len(), 1);
    assert_eq!(
        whole.get(&"tenant".to_string()),
        Some(&"acme".to_string())
    );
    assert!(CqrsContext::default().metadata_bag().is_none());
}

#[test]
fn test_clone_context_preserves_everything() {
    let mut bag = StringMap::new();
    bag.insert("tenant".to_string(), "acme".to_string());
    let context = CqrsContext::new(Some("bob".to_string()))
        .with_request_id("req-7".to_string())
        .with_metadata(bag)
        .with_rand_bytes([3; 16]);
    let copy = context.clone_context();
    assert_eq!(copy.current_user(), "bob");
    assert_eq!(copy.request_id(), "req-7");
    assert_eq!(copy.now(), context.now());
    assert_eq!(copy.next_uuid(), context.next_uuid());
    assert_eq!(
        copy.metadata(&"tenant".to_string()),
        Some(&"acme".to_string())
    );
}

#[test]
fn test_authenticated_user_username() {
    assert_eq!(AuthenticatedUser::Anonymous.username(), "anonymous");
    assert_eq!(
        AuthenticatedUser::User("alice".to_string()).username(),
        "alice"
    );
}

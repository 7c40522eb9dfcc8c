use pencil_api::collection::Collection;
use pencil_api::error::AppError;
use pencil_api::hitokoto::NewHitokotoRequest;
use pencil_api::item::HitokotoItem;
use pencil_api::persist::{
    collections_from_json, collections_to_json, hitokotos_from_json, hitokotos_to_json,
    users_from_json, users_to_json,
};
use pencil_api::storage::{
    add_hitokoto_to_collection, add_hitokoto_to_data, add_user_to_state, create_collection,
    install_collections, install_data, install_users, AppState,
};
use pencil_api::user::User;

fn populated_state() -> AppState {
    let mut state = AppState::new();
    let alice = add_user_to_state(&mut state, User::new("alice".to_string()).unwrap()).unwrap();
    let bob = add_user_to_state(&mut state, User::new("bob".to_string()).unwrap()).unwrap();
    let q1 = add_hitokoto_to_data(
        &mut state,
        NewHitokotoRequest {
            hitokoto: "a \"quoted\" \\ backslash".to_string(),
            hitokoto_type: "d".to_string(),
            from: "试验".to_string(),
            from_who: Some("某人".to_string()),
            user_id: alice.user_id,
        },
    )
    .unwrap();
    add_hitokoto_to_data(
        &mut state,
        NewHitokotoRequest {
            hitokoto: "plain".to_string(),
            hitokoto_type: "e".to_string(),
            from: "elsewhere".to_string(),
            from_who: None,
            user_id: bob.user_id,
        },
    )
    .unwrap();
    let c = create_collection(&mut state, alice.user_id, "favs".to_string(), Some("描述".to_string()))
        .unwrap();
    add_hitokoto_to_collection(&mut state, c.collection_uuid.clone(), q1.uuid.clone()).unwrap();
    state
}

#[test]
fn hitokoto_container_round_trips_through_the_file_text() {
    let state = populated_state();
    let text = hitokotos_to_json(&state.data);
    let decoded = hitokotos_from_json(&text).unwrap();
    assert_eq!(decoded.len(), state.data.len());
    for (a, b) in decoded.iter().zip(state.data.iter()) {
        assert_eq!(a.uuid, b.uuid);
        assert_eq!(a.hitokoto, b.hitokoto);
        assert_eq!(a.hitokoto_type, b.hitokoto_type);
        assert_eq!(a.from, b.from);
        assert_eq!(a.from_who, b.from_who);
        assert_eq!(a.user, b.user);
        assert_eq!(a.user_id, b.user_id);
        assert_eq!(a.created_at, b.created_at);
        assert_eq!(a.length, b.length);
    }
}

#[test]
fn simulated_restart_restores_all_three_containers() {
    let state = populated_state();
    let quotes_text = hitokotos_to_json(&state.data);
    let users_text = users_to_json(&state.users);
    let collections_text = collections_to_json(&state.collections);

    let mut reloaded = AppState::new();
    install_data(&mut reloaded, hitokotos_from_json(&quotes_text).unwrap());
    install_users(&mut reloaded, users_from_json(&users_text).unwrap());
    install_collections(&mut reloaded, collections_from_json(&collections_text).unwrap());

    assert_eq!(reloaded.data.len(), state.data.len());
    for (a, b) in reloaded.data.iter().zip(state.data.iter()) {
        assert_eq!(a.uuid, b.uuid);
        assert_eq!(a.hitokoto, b.hitokoto);
    }
    assert_eq!(reloaded.users.len(), state.users.len());
    for (a, b) in reloaded.users.iter().zip(state.users.iter()) {
        assert_eq!(a.user_id, b.user_id);
        assert_eq!(a.username, b.username);
        assert_eq!(a.hitokotos, b.hitokotos);
        assert_eq!(a.collections, b.collections);
    }
    assert_eq!(reloaded.collections.len(), state.collections.len());
    for (a, b) in reloaded.collections.iter().zip(state.collections.iter()) {
        assert_eq!(a.collection_uuid, b.collection_uuid);
        assert_eq!(a.title, b.title);
        assert_eq!(a.description, b.description);
        assert_eq!(a.user_id, b.user_id);
        assert_eq!(a.hitokoto_uuids, b.hitokoto_uuids);
        assert_eq!(a.created_at, b.created_at);
    }
}

#[test]
fn empty_containers_write_as_empty_arrays() {
    let state = AppState::new();
    assert_eq!(hitokotos_to_json(&state.data), "[]");
    assert_eq!(users_to_json(&state.users), "[]");
    assert_eq!(collections_to_json(&state.collections), "[]");
    assert!(hitokotos_from_json("[]").unwrap().is_empty());
    assert!(users_from_json("[]").unwrap().is_empty());
    assert!(collections_from_json("[]").unwrap().is_empty());
}

#[test]
fn corrupt_file_text_is_a_format_error() {
    match hitokotos_from_json("not json at all") {
        Err(AppError::Json(m)) => assert_eq!(m, "数据文件格式错误"),
        _ => panic!("expected a format error"),
    }
    match users_from_json("[") {
        Err(AppError::Json(m)) => assert_eq!(m, "用户数据文件格式错误"),
        _ => panic!("expected a format error"),
    }
    match collections_from_json("[]trailing") {
        Err(AppError::Json(m)) => assert_eq!(m, "文集数据文件格式错误"),
        _ => panic!("expected a format error"),
    }
}

#[test]
fn escaping_survives_the_quote_text() {
    let state = populated_state();
    let text = hitokotos_to_json(&state.data);
    assert!(text.contains("\\\"quoted\\\""));
    assert!(text.contains("\\\\ backslash"));
    let decoded = hitokotos_from_json(&text).unwrap();
    assert_eq!(decoded[0].hitokoto, "a \"quoted\" \\ backslash");
}

#[test]
fn user_record_text_is_canonical_pretty_json() {
    let user = User {
        user_id: 7,
        username: "alice".to_string(),
        hitokotos: vec!["u-1".to_string(), "u-2".to_string()],
        collections: vec![],
    };
    let text = users_to_json(&vec![user]);
    let expected = "[\n  {\n    \"user_id\": 7,\n    \"username\": \"alice\",\n    \"hitokotos\": [\n      \"u-1\",\n      \"u-2\"\n    ],\n    \"collections\": []\n  }\n]";
    assert_eq!(text, expected);
}

#[test]
fn collection_description_null_round_trips() {
    let collection = Collection {
        collection_uuid: "c-1".to_string(),
        title: "t".to_string(),
        description: None,
        user_id: 1,
        hitokoto_uuids: vec![],
        created_at: 1700000000,
    };
    let text = collections_to_json(&vec![collection]);
    assert!(text.contains("\"description\": null"));
    let decoded = collections_from_json(&text).unwrap();
    assert_eq!(decoded[0].description, None);
    assert_eq!(decoded[0].created_at, 1700000000);
}

#[test]
fn item_carries_its_creation_time_as_digits() {
    let item = HitokotoItem::new(
        "四字成语".to_string(),
        "i".to_string(),
        "from".to_string(),
        None,
        "alice".to_string(),
    );
    assert_eq!(item.length, 4);
    assert_eq!(item.user_id, 0);
    assert_eq!(item.uuid.chars().count(), 36);
    assert!(!item.created_at.is_empty());
    assert!(item.created_at.chars().all(|c| c.is_ascii_digit()));
    assert!(!item.created_at.starts_with('0') || item.created_at == "0");
}

#[test]
fn hashed_password_is_not_the_password() {
    let hashed = pencil_api::password::HashedPassword::new("test_password123".to_string()).unwrap();
    assert!(!hashed.value.is_empty());
    assert_ne!(hashed.value, "test_password123");
    match pencil_api::password::HashedPassword::new("   ".to_string()) {
        Err(AppError::User(m)) => assert_eq!(m, "密码不能为空"),
        _ => panic!("expected a user error"),
    }
}

#[test]
fn reloading_users_with_one_id_keeps_the_last_record() {
    let users = vec![
        User {
            user_id: 5,
            username: "old".to_string(),
            hitokotos: vec![],
            collections: vec![],
        },
        User {
            user_id: 5,
            username: "new".to_string(),
            hitokotos: vec![],
            collections: vec![],
        },
    ];
    let text = users_to_json(&users);
    let mut state = AppState::new();
    install_users(&mut state, users_from_json(&text).unwrap());
    assert_eq!(state.users.len(), 1);
    assert_eq!(state.users[0].username, "new");
}

#[test]
fn fresh_records_get_distinct_uuids() {
    let mut state = populated_state();
    let alice_id = state.users[0].user_id;
    let a = add_hitokoto_to_data(
        &mut state,
        NewHitokotoRequest {
            hitokoto: "one".to_string(),
            hitokoto_type: "a".to_string(),
            from: "f".to_string(),
            from_who: None,
            user_id: alice_id,
        },
    )
    .unwrap();
    let b = add_hitokoto_to_data(
        &mut state,
        NewHitokotoRequest {
            hitokoto: "two".to_string(),
            hitokoto_type: "a".to_string(),
            from: "f".to_string(),
            from_who: None,
            user_id: alice_id,
        },
    )
    .unwrap();
    assert_ne!(a.uuid, b.uuid);
    assert_eq!(a.uuid.chars().count(), 36);
}

#[test]
fn collection_membership_can_be_removed_once() {
    let mut collection = Collection {
        collection_uuid: "c-1".to_string(),
        title: "t".to_string(),
        description: None,
        user_id: 1,
        hitokoto_uuids: vec!["a".to_string(), "b".to_string()],
        created_at: 0,
    };
    assert!(collection.remove_hitokoto("a"));
    assert_eq!(collection.hitokoto_uuids, vec!["b".to_string()]);
    assert!(!collection.remove_hitokoto("a"));
}

use pencil_api::collection::Collection;
use pencil_api::error::AppError;
use pencil_api::hitokoto::NewHitokotoRequest;
use pencil_api::storage::{
    add_hitokoto_to_collection, add_hitokoto_to_data, add_user_to_state, create_collection,
    get_collection_with_details, get_hitokotos_by_uuids, get_random_hitokoto, get_user_by_id,
    get_user_with_details, get_username_by_id, hitokoto_exists, with_user_mut, AppState,
};
use pencil_api::user::User;

fn register(state: &mut AppState, name: &str) -> Result<User, AppError> {
    let user = User::new(name.to_string())?;
    add_user_to_state(state, user)
}

fn submit(state: &mut AppState, text: &str, user_id: u32) -> Result<pencil_api::hitokoto::Hitokoto, AppError> {
    add_hitokoto_to_data(
        state,
        NewHitokotoRequest {
            hitokoto: text.to_string(),
            hitokoto_type: "a".to_string(),
            from: "somewhere".to_string(),
            from_who: None,
            user_id,
        },
    )
}

#[test]
fn register_empty_username_is_rejected() {
    let mut state = AppState::new();
    let result = register(&mut state, "");
    match result {
        Err(AppError::User(m)) => assert_eq!(m, "用户名不能为空"),
        _ => panic!("expected a user error for an empty username"),
    }
    assert_eq!(state.users.len(), 0);
}

#[test]
fn register_whitespace_username_is_rejected() {
    let mut state = AppState::new();
    let result = register(&mut state, "   ");
    match result {
        Err(AppError::User(m)) => assert_eq!(m, "用户名不能为空"),
        _ => panic!("expected a user error for a blank username"),
    }
    assert_eq!(state.users.len(), 0);
}

#[test]
fn register_same_username_twice_fails_already_exists() {
    let mut state = AppState::new();
    register(&mut state, "alice").unwrap();
    let second = register(&mut state, "alice");
    match second {
        Err(AppError::AlreadyExists(m)) => assert_eq!(m, "用户名已存在"),
        _ => panic!("expected an already-exists error"),
    }
    assert_eq!(state.users.len(), 1);
    assert_eq!(state.users[0].username, "alice");
}

#[test]
fn registered_users_get_distinct_ids() {
    let mut state = AppState::new();
    let a = register(&mut state, "alice").unwrap();
    let b = register(&mut state, "bob").unwrap();
    assert_ne!(a.user_id, b.user_id);
    assert_eq!(state.users.len(), 2);
    assert_eq!(get_username_by_id(&state, a.user_id).unwrap(), "alice");
    assert_eq!(get_user_by_id(&state, b.user_id).unwrap().username, "bob");
}

#[test]
fn created_quote_has_derived_length_and_is_retrievable() {
    let mut state = AppState::new();
    let alice = register(&mut state, "alice").unwrap();
    let quote = submit(&mut state, "你好，世界", alice.user_id).unwrap();
    assert_eq!(quote.length, 5);
    assert_eq!(quote.user, "alice");
    assert_eq!(quote.uuid.chars().count(), 36);
    assert!(hitokoto_exists(&state, &quote.uuid));

    let found = get_hitokotos_by_uuids(&state, &[quote.uuid.clone()]);
    assert_eq!(found.len(), 1);
    assert_eq!(found[0].hitokoto, "你好，世界");
    assert_eq!(found[0].uuid, quote.uuid);
}

#[test]
fn quote_for_missing_user_is_rejected() {
    let mut state = AppState::new();
    let result = submit(&mut state, "text", 7);
    match result {
        Err(AppError::NotFound(m)) => assert_eq!(m, "用户ID 7 不存在，请先注册用户"),
        _ => panic!("expected a not-found error"),
    }
    assert_eq!(state.data.len(), 0);
}

#[test]
fn random_quote_on_empty_container_is_none() {
    let mut state = AppState::new();
    assert!(get_random_hitokoto(&mut state).is_none());
}

#[test]
fn random_quote_draws_a_held_element() {
    let mut state = AppState::new();
    let alice = register(&mut state, "alice").unwrap();
    submit(&mut state, "only one", alice.user_id).unwrap();
    for _ in 0..5 {
        let got = get_random_hitokoto(&mut state).expect("a non-empty container yields a quote");
        assert_eq!(got.hitokoto, "only one");
    }
}

#[test]
fn create_collection_for_missing_user_is_rejected() {
    let mut state = AppState::new();
    let result = create_collection(&mut state, 42, "favs".to_string(), None);
    match result {
        Err(AppError::NotFound(_)) => {}
        _ => panic!("expected a not-found error"),
    }
    assert_eq!(state.collections.len(), 0);
}

#[test]
fn create_collection_with_blank_title_is_rejected() {
    let mut state = AppState::new();
    let alice = register(&mut state, "alice").unwrap();
    let result = create_collection(&mut state, alice.user_id, "  ".to_string(), None);
    match result {
        Err(AppError::Collection(m)) => assert_eq!(m, "文集错误: 文集标题不能为空"),
        _ => panic!("expected a collection error"),
    }
    assert_eq!(state.collections.len(), 0);
}

#[test]
fn collection_constructor_rejects_blank_title() {
    match Collection::new("".to_string(), None, 1) {
        Err(AppError::Collection(m)) => assert_eq!(m, "文集标题不能为空"),
        _ => panic!("expected a collection error"),
    }
}

#[test]
fn add_missing_quote_to_collection_is_rejected() {
    let mut state = AppState::new();
    let alice = register(&mut state, "alice").unwrap();
    let collection =
        create_collection(&mut state, alice.user_id, "favs".to_string(), None).unwrap();
    let result = add_hitokoto_to_collection(
        &mut state,
        collection.collection_uuid.clone(),
        "no-such-uuid".to_string(),
    );
    match result {
        Err(AppError::NotFound(m)) => assert_eq!(m, "Hitokoto UUID no-such-uuid 不存在"),
        _ => panic!("expected a not-found error"),
    }
    let details = get_collection_with_details(&state, &collection.collection_uuid).unwrap();
    assert_eq!(details.hitokotos.len(), 0);
}

#[test]
fn add_to_missing_collection_is_rejected() {
    let mut state = AppState::new();
    let alice = register(&mut state, "alice").unwrap();
    let quote = submit(&mut state, "text", alice.user_id).unwrap();
    let result = add_hitokoto_to_collection(&mut state, "no-such-id".to_string(), quote.uuid);
    match result {
        Err(AppError::NotFound(m)) => assert_eq!(m, "文集ID no-such-id 不存在"),
        _ => panic!("expected a not-found error"),
    }
}

#[test]
fn adding_same_quote_twice_keeps_one_membership_entry() {
    let mut state = AppState::new();
    let alice = register(&mut state, "alice").unwrap();
    let quote = submit(&mut state, "text", alice.user_id).unwrap();
    let collection =
        create_collection(&mut state, alice.user_id, "favs".to_string(), None).unwrap();

    add_hitokoto_to_collection(&mut state, collection.collection_uuid.clone(), quote.uuid.clone())
        .unwrap();
    add_hitokoto_to_collection(&mut state, collection.collection_uuid.clone(), quote.uuid.clone())
        .unwrap();

    let stored = &state.collections[0];
    assert_eq!(stored.hitokoto_uuids.len(), 1);
    assert_eq!(stored.hitokoto_uuids[0], quote.uuid);
}

#[test]
fn full_scenario_register_submit_collect() {
    let mut state = AppState::new();
    let alice = register(&mut state, "alice").unwrap();
    let user_id = alice.user_id;

    let quote = submit(&mut state, "hello world", user_id).unwrap();
    assert_eq!(quote.length, 11);

    let collection = create_collection(&mut state, user_id, "favs".to_string(), None).unwrap();
    assert!(collection.hitokoto_uuids.is_empty());

    add_hitokoto_to_collection(
        &mut state,
        collection.collection_uuid.clone(),
        quote.uuid.clone(),
    )
    .unwrap();

    let details = get_collection_with_details(&state, &collection.collection_uuid).unwrap();
    assert_eq!(details.title, "favs");
    assert_eq!(details.hitokotos.len(), 1);
    assert_eq!(details.hitokotos[0].hitokoto, "hello world");

    let user_details = get_user_with_details(&state, user_id).unwrap();
    assert_eq!(user_details.username, "alice");
    assert_eq!(user_details.collections.len(), 1);
    assert_eq!(user_details.collections[0].hitokotos.len(), 1);
}

#[test]
fn with_user_mut_reports_missing_users() {
    let mut state = AppState::new();
    let result: Result<(), AppError> = with_user_mut(&mut state, 3, |u: User| (u, ()));
    match result {
        Err(AppError::NotFound(m)) => assert_eq!(m, "用户ID 3 不存在，请先注册用户"),
        _ => panic!("expected a not-found error"),
    }
}

#[test]
fn with_user_mut_applies_the_operation_to_the_record() {
    let mut state = AppState::new();
    let alice = register(&mut state, "alice").unwrap();
    let result = with_user_mut(&mut state, alice.user_id, |mut u: User| {
        u.add_hitokoto_uuid("q-1".to_string());
        u.add_hitokoto_uuid("q-1".to_string());
        u.add_collection_id("c-1".to_string());
        u.add_collection_id("c-1".to_string());
        (u, ())
    });
    assert!(result.is_ok());
    assert_eq!(state.users[0].hitokotos, vec!["q-1".to_string(), "q-1".to_string()]);
    assert_eq!(state.users[0].collections, vec!["c-1".to_string()]);
}

#[test]
fn user_details_for_missing_user_are_absent() {
    let state = AppState::new();
    assert!(get_user_with_details(&state, 9).is_none());
    assert!(get_collection_with_details(&state, "nothing").is_none());
}

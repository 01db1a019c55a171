use palantir::api_access::{
    ApiAccessConfig, ApiAccessManager, ApiAccessPolicy, ApiKey, ApiPermissions,
};

#[test]
fn should_fallback_to_policy_without_key() {
    // given
    let config = ApiAccessConfig {
        api_policy: ApiAccessPolicy { restrict_connect: false, restrict_host: true },
        ..ApiAccessConfig::default()
    };
    let manager = ApiAccessManager::new(config);

    // when
    let permissions = manager.get_permissions(None);

    // then
    assert_eq!(permissions, ApiPermissions::connect())
}

#[test]
fn should_fallback_to_policy_with_invalid_key() {
    // given
    let config = ApiAccessConfig {
        api_policy: ApiAccessPolicy { restrict_host: true, restrict_connect: true },
        api_keys: vec![ApiKey {
            key: "AAAAA".to_string(),
            permissions: ApiPermissions::all(),
        }],
    };
    let manager = ApiAccessManager::new(config);

    // when
    let permissions = manager.get_permissions(Some("BBBBB"));

    // then
    assert_eq!(permissions, ApiPermissions::none())
}

#[test]
fn should_use_key_permissions_with_correct_key() {
    // given
    let config = ApiAccessConfig {
        api_policy: ApiAccessPolicy { restrict_host: true, restrict_connect: true },
        api_keys: vec![ApiKey {
            key: "AAAAA".to_string(),
            permissions: ApiPermissions::all(),
        }],
    };
    let manager = ApiAccessManager::new(config);

    // when
    let permissions = manager.get_permissions(Some("AAAAA"));

    // then
    assert_eq!(permissions, ApiPermissions::all());
}

#[test]
fn key_grants_add_to_baseline_but_never_remove() {
    let config = ApiAccessConfig {
        api_policy: ApiAccessPolicy { restrict_connect: false, restrict_host: false },
        api_keys: vec![ApiKey {
            key: "AAAAA".to_string(),
            permissions: ApiPermissions::none(),
        }],
    };
    let manager = ApiAccessManager::new(config);

    // A key without grants cannot downgrade an unrestricted baseline.
    assert_eq!(manager.get_permissions(Some("AAAAA")), ApiPermissions::all());
}

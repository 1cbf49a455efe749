use rsecrets::backend::Lookup;
use rsecrets::cache::{ValueCache, CACHE_TTL_SECONDS};
use rsecrets::crd::BackendType;

fn lookup(kind: BackendType, name: &str) -> Lookup {
    Lookup {
        backend: kind,
        name: name.to_string(),
        configuration_profile_id: None,
        version_number: None,
        token: None,
    }
}

#[test]
fn cache_ttl_fetches_once_within_sixty_seconds() {
    let mut cache: ValueCache<String> = ValueCache::new();
    let key = lookup(BackendType::SSM, "MyStringParameter");
    let mut calls = 0;
    let t0 = 1_000;

    let first = cache
        .get_or_fetch(key.clone(), t0, || {
            calls += 1;
            Some("Vici".to_string())
        })
        .cloned();
    assert_eq!(first, Some("Vici".to_string()));
    assert_eq!(calls, 1);

    for now in [t0, t0 + 1, t0 + 59] {
        let again = cache
            .get_or_fetch(key.clone(), now, || {
                calls += 1;
                Some("changed".to_string())
            })
            .cloned();
        assert_eq!(again, Some("Vici".to_string()));
    }
    assert_eq!(calls, 1);

    let later = cache
        .get_or_fetch(key.clone(), t0 + 60, || {
            calls += 1;
            Some("changed".to_string())
        })
        .cloned();
    assert_eq!(later, Some("changed".to_string()));
    assert_eq!(calls, 2);
    assert_eq!(CACHE_TTL_SECONDS, 60);
}

#[test]
fn cache_does_not_keep_failures() {
    let mut cache: ValueCache<u32> = ValueCache::new();
    let key = lookup(BackendType::Vault, "baz");
    let mut calls = 0;
    assert_eq!(
        cache.get_or_fetch(key.clone(), 5, || {
            calls += 1;
            None
        }),
        None
    );
    assert_eq!(cache.cache_size(), 0);
    assert_eq!(
        cache.get_or_fetch(key.clone(), 5, || {
            calls += 1;
            Some(7)
        }),
        Some(&7)
    );
    assert_eq!(calls, 2);
    assert_eq!(cache.cache_size(), 1);

    // An entry that has gone stale is gone after a failed fetch.
    assert_eq!(cache.get_or_fetch(key.clone(), 500, || None), None);
    assert_eq!(cache.cache_size(), 0);
    assert_eq!(cache.cache_get(&key, 5), None);
}

#[test]
fn cache_serves_from_the_time_of_storing_until_the_lifespan_has_passed() {
    let mut cache: ValueCache<&str> = ValueCache::with_lifespan(10);
    let key = lookup(BackendType::SSM, "p");
    cache.cache_set(key.clone(), "v", 100);
    assert_eq!(cache.cache_get(&key, 99), None);
    assert_eq!(cache.cache_get(&key, 100), Some(&"v"));
    assert_eq!(cache.cache_get(&key, 109), Some(&"v"));
    assert_eq!(cache.cache_get(&key, 110), None);
    assert_eq!(cache.cache_get(&key, u64::MAX), None);
    assert_eq!(cache.cache_size(), 1);

    cache.cache_set(key.clone(), "w", 200);
    assert_eq!(cache.cache_size(), 1);
    assert_eq!(cache.cache_get(&key, 205), Some(&"w"));

    let never: ValueCache<&str> = ValueCache::with_lifespan(0);
    assert_eq!(never.cache_get(&key, 0), None);
    let mut never = never;
    never.cache_set(key.clone(), "x", 3);
    assert_eq!(never.cache_get(&key, 3), None);
}

#[test]
fn cache_keeps_lookups_apart() {
    let mut cache: ValueCache<u8> = ValueCache::new();
    let a = lookup(BackendType::SSM, "name");
    let b = lookup(BackendType::SecretManager, "name");
    let mut c = lookup(BackendType::SSM, "name");
    c.version_number = Some(2);
    let mut d = lookup(BackendType::SSM, "name");
    d.token = Some("SECRET-REDACTED".to_string());
    let mut e = lookup(BackendType::SSM, "name");
    e.configuration_profile_id = Some("profile".to_string());
    for (i, key) in [&a, &b, &c, &d, &e].iter().enumerate() {
        cache.cache_set((*key).clone(), i as u8, 0);
    }
    assert_eq!(cache.cache_size(), 5);
    for (i, key) in [&a, &b, &c, &d, &e].iter().enumerate() {
        assert_eq!(cache.cache_get(key, 1), Some(&(i as u8)));
    }
    assert!(a.same(&a.duplicate()));
    assert!(!a.same(&b) && !a.same(&c) && !a.same(&d) && !a.same(&e));

    cache.cache_remove(&c);
    cache.cache_remove(&c);
    assert_eq!(cache.cache_size(), 4);
    assert_eq!(cache.cache_get(&c, 1), None);
    assert_eq!(cache.cache_get(&e, 1), Some(&4));
}

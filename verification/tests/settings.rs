use cache_proxy::db::CacheSettings;

#[test]
fn select_statement_without_ttl_or_errors() {
    let settings = CacheSettings::new(false, false, 0);
    assert_eq!(
        settings.to_sql(),
        "SELECT * FROM cache WHERE method = :method AND url = :url AND (status_code < 400)"
    );
}

#[test]
fn select_statement_with_every_clause() {
    let settings = CacheSettings::new(true, true, 3600);
    assert_eq!(
        settings.to_sql(),
        "SELECT * FROM cache WHERE method = :method AND url = :url \
         AND last_update > datetime(CURRENT_TIMESTAMP, '-3600 seconds') \
         AND (status_code < 400 OR status_code BETWEEN 400 AND 499 \
         OR status_code BETWEEN 500 AND 599)"
    );
}

#[test]
fn select_statement_with_client_errors_only() {
    let settings = CacheSettings::new(true, false, 0);
    assert_eq!(
        settings.to_sql(),
        "SELECT * FROM cache WHERE method = :method AND url = :url \
         AND (status_code < 400 OR status_code BETWEEN 400 AND 499)"
    );
}

#[test]
fn select_statement_with_server_errors_and_largest_ttl() {
    let settings = CacheSettings::new(false, true, 65535);
    assert_eq!(
        settings.to_sql(),
        "SELECT * FROM cache WHERE method = :method AND url = :url \
         AND last_update > datetime(CURRENT_TIMESTAMP, '-65535 seconds') \
         AND (status_code < 400 OR status_code BETWEEN 500 AND 599)"
    );
}

#[test]
fn settings_keep_what_they_were_built_with() {
    let settings = CacheSettings::new(true, false, 7);
    assert!(settings.client_errors());
    assert!(!settings.server_errors());
    assert_eq!(settings.ttl(), 7);
    let copy = settings.clone();
    assert_eq!(copy.to_sql(), settings.to_sql());
    assert_eq!(copy.ttl(), 7);
}

#[test]
fn statuses_below_400_are_admitted_by_every_policy() {
    for client in [false, true] {
        for server in [false, true] {
            let settings = CacheSettings::new(client, server, 0);
            assert!(settings.admits(100, 0, 0));
            assert!(settings.admits(200, 0, 0));
            assert!(settings.admits(399, 0, 0));
        }
    }
}

#[test]
fn client_errors_are_admitted_only_where_allowed() {
    let strict = CacheSettings::new(false, true, 0);
    let lenient = CacheSettings::new(true, false, 0);
    for status in [400u16, 404, 499] {
        assert!(!strict.admits(status, 0, 0));
        assert!(lenient.admits(status, 0, 0));
    }
}

#[test]
fn server_errors_are_admitted_only_where_allowed() {
    let strict = CacheSettings::new(true, false, 0);
    let lenient = CacheSettings::new(false, true, 0);
    for status in [500u16, 503, 599] {
        assert!(!strict.admits(status, 0, 0));
        assert!(lenient.admits(status, 0, 0));
    }
}

#[test]
fn statuses_from_600_are_never_admitted() {
    let settings = CacheSettings::new(true, true, 0);
    assert!(!settings.admits(600, 0, 0));
    assert!(!settings.admits(999, 0, 0));
}

#[test]
fn without_ttl_rows_of_any_age_are_fresh() {
    let settings = CacheSettings::new(false, false, 0);
    assert!(settings.admits(200, 0, 1_000_000_000));
    assert!(settings.admits(200, i64::MIN, i64::MAX));
}

#[test]
fn with_ttl_a_row_is_fresh_while_younger_than_the_ttl() {
    let settings = CacheSettings::new(false, false, 60);
    assert!(settings.admits(200, 1000, 1000));
    assert!(settings.admits(200, 1000, 1059));
    assert!(!settings.admits(200, 1000, 1060));
    assert!(!settings.admits(200, 1000, 1061));
    assert!(!settings.admits(200, i64::MIN, i64::MAX));
}

#[test]
fn a_row_written_after_now_is_fresh() {
    let settings = CacheSettings::new(false, false, 60);
    assert!(settings.admits(200, 2000, 1000));
    assert!(settings.admits(200, i64::MAX, i64::MIN));
}

use rust_workshop::web::auth_service::{
    authenticate, check_username_free, hash_password, refresh_expired_error, refresh_step,
    verify_password, RefreshStep,
};
use rust_workshop::web::dto::UserRecord;
use rust_workshop::web::error::AppError;
use rust_workshop::web::middleware::{access_claims, bearer_token};
use rust_workshop::web::portfolio_service::{
    check_asset_absent, check_asset_deleted, check_no_portfolio, require_portfolio,
};
use rust_workshop::web::prices::{coin_not_found, coins_list_url, price_in_reply, price_url};

#[test]
fn errors_have_statuses_and_messages() {
    assert_eq!(AppError::BadGateway.status_code(), 502);
    assert_eq!(AppError::BadGateway.message(), "upstream unavailable");
    let nf = AppError::NotFound(String::from("portfolio not found"));
    assert_eq!(nf.status_code(), 404);
    assert_eq!(nf.message(), "portfolio not found");
    assert_eq!(AppError::Conflict(String::from("x")).status_code(), 409);
    assert_eq!(AppError::Unauthorized(String::from("x")).status_code(), 401);
    let internal = AppError::Internal(String::from("db down"));
    assert_eq!(internal.status_code(), 500);
    assert_eq!(internal.message(), "internal server error");
}

#[test]
fn bearer_header_parsing() {
    assert_eq!(bearer_token("Bearer abc.def"), Some("abc.def"));
    assert_eq!(bearer_token("Bearer "), Some(""));
    assert_eq!(bearer_token("bearer abc"), None);
    assert_eq!(bearer_token("Basic abc"), None);
    assert_eq!(bearer_token("Bear"), None);
}

#[test]
fn claims_expire_after_fifteen_minutes() {
    let c = access_claims("user-1", 1_000);
    assert_eq!(c.sub, "user-1");
    assert_eq!(c.exp, 1_900);
}

#[test]
fn registered_password_logs_in() {
    let hash = hash_password("password123", &[7u8; 16]).unwrap();
    assert!(hash.starts_with("$argon2id$"));
    assert!(verify_password("password123", &hash));
    assert!(!verify_password("wrongpassword", &hash));
    assert!(!verify_password("password123", "not a hash"));
    let user = UserRecord {
        id: String::from("id-1"),
        username: String::from("bob"),
        password_hash: hash.clone(),
    };
    assert_eq!(authenticate(Some(user.clone()), "password123"), Ok(String::from("id-1")));
    assert_eq!(
        authenticate(Some(user), "wrongpassword"),
        Err(AppError::Unauthorized(String::from("invalid credentials")))
    );
    assert_eq!(
        authenticate(None, "password123"),
        Err(AppError::Unauthorized(String::from("invalid credentials")))
    );
}

#[test]
fn unusable_salts_are_refused() {
    assert_eq!(
        hash_password("password123", &[1u8; 50]),
        Err(AppError::Internal(String::from("salt error")))
    );
    assert_eq!(
        hash_password("password123", &[1u8; 4]),
        Err(AppError::Internal(String::from("password hash error")))
    );
}

#[test]
fn usernames_must_be_free() {
    assert_eq!(check_username_free("alice", false), Ok(()));
    assert_eq!(
        check_username_free("alice", true),
        Err(AppError::Conflict(String::from("username 'alice' already taken")))
    );
}

#[test]
fn refresh_decisions() {
    let now = (1_700_000_000_i64, 0_u32);
    assert_eq!(
        refresh_step(None, now),
        Err(AppError::Unauthorized(String::from("invalid refresh token")))
    );
    let later = (String::from("u1"), String::from("2030-01-01T00:00:00+00:00"));
    assert_eq!(refresh_step(Some(later), now), Ok(RefreshStep::IssueAccessToken(String::from("u1"))));
    let earlier = (String::from("u1"), String::from("2020-01-01T00:00:00Z"));
    assert_eq!(refresh_step(Some(earlier), now), Ok(RefreshStep::DeleteExpired));
    let bad = (String::from("u1"), String::from("yesterday"));
    assert_eq!(
        refresh_step(Some(bad), now),
        Err(AppError::Internal(String::from("bad expires_at in db")))
    );
    let exact = (String::from("u2"), String::from("2023-11-14T22:13:20Z"));
    assert_eq!(refresh_step(Some(exact), now), Ok(RefreshStep::IssueAccessToken(String::from("u2"))));
    assert_eq!(
        refresh_expired_error(),
        AppError::Unauthorized(String::from("refresh token expired"))
    );
}

#[test]
fn portfolio_rules() {
    assert_eq!(check_no_portfolio(false), Ok(()));
    assert_eq!(
        check_no_portfolio(true),
        Err(AppError::Conflict(String::from("portfolio already exists")))
    );
    assert_eq!(require_portfolio(Some(5)), Ok(5));
    assert_eq!(
        require_portfolio::<u8>(None),
        Err(AppError::NotFound(String::from("portfolio not found")))
    );
    assert_eq!(check_asset_absent("bitcoin", false), Ok(()));
    assert_eq!(
        check_asset_absent("bitcoin", true),
        Err(AppError::Conflict(String::from("asset 'bitcoin' already exists in portfolio")))
    );
    assert_eq!(check_asset_deleted("bitcoin", true), Ok(()));
    assert_eq!(
        check_asset_deleted("bitcoin", false),
        Err(AppError::NotFound(String::from("asset 'bitcoin' not found")))
    );
}

#[test]
fn price_addresses() {
    assert_eq!(coins_list_url(), "https://api.coingecko.com/api/v3/coins/list");
    assert_eq!(
        price_url("BTC"),
        "https://api.coingecko.com/api/v3/simple/price?ids=btc&vs_currencies=usd"
    );
    assert_eq!(
        coin_not_found("XYZ"),
        AppError::NotFound(String::from("Coin 'XYZ' not found"))
    );
}

#[test]
fn price_is_read_from_the_lowercased_row() {
    let reply = vec![
        (String::from("btc"), vec![(String::from("usd"), 65000.0)]),
        (String::from("eth"), vec![(String::from("eur"), 2800.0)]),
    ];
    assert_eq!(price_in_reply(&reply, "BTC"), Ok(65000.0));
    match price_in_reply(&reply, "ETH") {
        Err(e) => assert_eq!(e.message(), "Coin 'ETH' not found"),
        Ok(_) => panic!("eth has no usd price"),
    }
    match price_in_reply(&reply, "doge") {
        Err(e) => assert_eq!(e.status_code(), 404),
        Ok(_) => panic!("doge is not in the reply"),
    }
}

#[test]
fn salts_of_eight_to_forty_eight_bytes_hash() {
    for n in [8usize, 16, 32, 48] {
        let salt = vec![9u8; n];
        let hash = hash_password("pw", &salt).unwrap();
        assert!(verify_password("pw", &hash));
    }
    assert_eq!(
        hash_password("pw", &[9u8; 7]),
        Err(AppError::Internal(String::from("password hash error")))
    );
    assert_eq!(
        hash_password("pw", &[9u8; 49]),
        Err(AppError::Internal(String::from("salt error")))
    );
}

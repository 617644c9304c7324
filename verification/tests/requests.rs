use auction_core::auth::{check_account_owner, extract_bearer_token, token_claims, token_to_authenticate};
use auction_core::ledger::{deposit_entry, settlement_entries};
use auction_core::models::{CreateTransaction, CreateUser, UserPair};
use auction_core::passwords::{
    check_login, login_verdict, new_user_record, user_record_with_hash, LoginOutcome,
};
use auction_core::paths::{id_from_match, id_in_path};
use auction_core::responses::{
    auction_ended_message, auction_view, creation_response, product_view, text_or_unknown,
    transaction_view, user_view,
};
use auction_core::status::HttpStatus;

#[test]
fn bearer_token_is_read() {
    assert_eq!(extract_bearer_token(Some(b"Bearer abc.def")), Ok(b"abc.def".to_vec()));
    assert_eq!(extract_bearer_token(Some(b"Bearer Bearer abc")), Ok(b"abc".to_vec()));
    assert_eq!(extract_bearer_token(Some(b"Bearer ")), Ok(Vec::new()));
    assert_eq!(extract_bearer_token(Some(b"Bearer a\tb")), Ok(b"a\tb".to_vec()));
}

#[test]
fn bad_headers_are_bad_requests() {
    assert_eq!(extract_bearer_token(None), Err(HttpStatus::BadRequest));
    assert_eq!(extract_bearer_token(Some(b"Basic abc")), Err(HttpStatus::BadRequest));
    assert_eq!(extract_bearer_token(Some(b"bearer abc")), Err(HttpStatus::BadRequest));
    assert_eq!(extract_bearer_token(Some(b"Bearer")), Err(HttpStatus::BadRequest));
    assert_eq!(extract_bearer_token(Some(b"Bearer ab\x7f")), Err(HttpStatus::BadRequest));
    assert_eq!(extract_bearer_token(Some("Bearer é".as_bytes())), Err(HttpStatus::BadRequest));
}

#[test]
fn authentication_layer_refuses_unreadable_tokens() {
    assert_eq!(token_to_authenticate(None), Err(HttpStatus::Unauthorized));
    assert_eq!(token_to_authenticate(Some(b"Token x")), Err(HttpStatus::Unauthorized));
    assert_eq!(token_to_authenticate(Some(b"Bearer x")), Ok(b"x".to_vec()));
    assert_eq!(HttpStatus::Unauthorized.code(), 401);
}

#[test]
fn only_the_owner_may_deposit() {
    let a = "a@example.com".to_string();
    let b = "b@example.com".to_string();
    assert_eq!(check_account_owner(&a, &a), Ok(()));
    assert_eq!(check_account_owner(&a, &b), Err(HttpStatus::Forbidden));
}

#[test]
fn token_claims_expire_after_their_lifetimes() {
    let email = "a@example.com".to_string();
    let (access, refresh) = token_claims(&email, 1_700_000_000);
    assert_eq!(access.sub, email);
    assert_eq!(access.exp, 1_700_000_900);
    assert_eq!(access.token_type, "ACCESS_TOKEN");
    assert_eq!(refresh.sub, email);
    assert_eq!(refresh.exp, 1_700_003_600);
    assert_eq!(refresh.token_type, "REFRESH_TOKEN");
}

#[test]
fn login_without_account_is_refused() {
    match check_login(None, "pw").unwrap() {
        LoginOutcome::Rejected(s, m) => {
            assert_eq!(s, HttpStatus::Unauthorized);
            assert_eq!(m.message, "User does not exist");
        }
        LoginOutcome::Granted => panic!("granted"),
    }
}

#[test]
fn malformed_hash_is_an_error() {
    assert!(check_login(Some("not a hash"), "pw").is_err());
}

#[test]
fn registration_hash_checks_at_login() {
    let payload = CreateUser {
        username: "ann".to_string(),
        email: "ann@example.com".to_string(),
        password: "secret".to_string(),
    };
    let user = new_user_record(&payload).unwrap();
    assert_eq!(user.username, "ann");
    assert_eq!(user.email, "ann@example.com");
    assert_eq!(user.password_hash.len(), 60);
    assert!(user.password_hash.starts_with("$2b$12$"));
    assert_eq!(check_login(Some(&user.password_hash), "secret").unwrap(), LoginOutcome::Granted);
    match check_login(Some(&user.password_hash), "wrong").unwrap() {
        LoginOutcome::Rejected(s, m) => {
            assert_eq!(s, HttpStatus::Unauthorized);
            assert_eq!(m.message, "Invalid password");
        }
        LoginOutcome::Granted => panic!("granted"),
    }
    assert_eq!(login_verdict(true, true), LoginOutcome::Granted);
}

#[test]
fn id_at_the_end_of_a_path() {
    assert_eq!(id_in_path("/products/category/12"), Some("12".to_string()));
    assert_eq!(id_in_path("/auctions/end/7"), Some("7".to_string()));
    assert_eq!(id_in_path("/a/12/b"), None);
    assert_eq!(id_in_path("/a/"), None);
    assert_eq!(id_in_path("12"), None);
    assert_eq!(id_in_path("/a/1x2"), None);
    assert_eq!(id_in_path("/a/١٢"), Some("١٢".to_string()));
    assert_eq!(id_from_match("/12"), "12");
}

#[test]
fn ledger_rows() {
    let (sell, buy) = settlement_entries(&UserPair { seller_id: 1, bidder_id: 2, amount_bits: 10.0f64.to_bits() });
    assert!(sell.is_positive && sell.user_id == 1 && sell.information == "AUCTION_SELL");
    assert!(!buy.is_positive && buy.user_id == 2 && buy.information == "AUCTION_BUY");
    assert_eq!(f64::from_bits(buy.amount_bits), 10.0);
    let row = deposit_entry(&CreateTransaction {
        user_id: 5,
        amount_bits: 2.5f64.to_bits(),
        is_positive: true,
        information: "gift".to_string(),
    });
    assert_eq!(row.information, "DEPOSIT");
    assert_eq!(row.user_id, 5);
    assert!(row.is_positive);
}

#[test]
fn response_bodies() {
    assert_eq!(text_or_unknown(None), "UNKNOWN");
    assert_eq!(text_or_unknown(Some("x".to_string())), "x");
    let p = product_view(1, "lamp".to_string(), None, 2, "home".to_string());
    assert_eq!(p.description, "UNKNOWN");
    assert_eq!(p.category.name, "home");
    let r = creation_response("Auction");
    assert_eq!(r.type_of_model, "Auction");
    assert_eq!(r.message, "Success");
    assert_eq!(auction_ended_message().message, "Auction succesfully ended");
}

#[test]
fn record_takes_the_hash_or_its_error() {
    let payload = CreateUser {
        username: "bo".to_string(),
        email: "bo@example.com".to_string(),
        password: "pw".to_string(),
    };
    let user = user_record_with_hash(&payload, Ok("h".to_string())).unwrap();
    assert_eq!(user.username, "bo");
    assert_eq!(user.email, "bo@example.com");
    assert_eq!(user.password_hash, "h");
    let failed = user_record_with_hash(&payload, Err(bcrypt::BcryptError::CostNotAllowed(3)));
    assert!(matches!(failed, Err(bcrypt::BcryptError::CostNotAllowed(3))));
}

#[test]
fn listed_views() {
    let a = auction_view(1, 2, "vase".to_string(), None, 3, "ann".to_string(), 5.0f64.to_bits(), 1, None);
    assert_eq!(a.product_description, "UNKNOWN");
    assert!(a.is_complete);
    assert_eq!(f64::from_bits(a.final_price_bits), 0.0);
    assert_eq!(f64::from_bits(a.product_starting_price_bits), 5.0);
    let a = auction_view(1, 2, "vase".to_string(), Some("blue".to_string()), 3, "ann".to_string(), 0, 0, Some(7.5f64.to_bits()));
    assert!(!a.is_complete);
    assert_eq!(a.product_description, "blue");
    assert_eq!(f64::from_bits(a.final_price_bits), 7.5);
    let t = transaction_view(9, 2.0f64.to_bits(), None, 4, -1);
    assert!(t.is_positive);
    assert_eq!(t.information, "UNKNOWN");
    let u = user_view(4, "ann".to_string(), "ann@example.com".to_string(), None);
    assert_eq!(f64::from_bits(u.balance_bits), 0.0);
    let u = user_view(4, "ann".to_string(), "ann@example.com".to_string(), Some(3.25f64.to_bits()));
    assert_eq!(f64::from_bits(u.balance_bits), 3.25);
}

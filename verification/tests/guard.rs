use iceblink_sync::auth::guard::{
    candidate_token, cookie, without_prefix, Operation, Rejection, BEARER, SESSION_COOKIE,
    UNAUTHENTICATED,
};
use iceblink_sync::auth::session::{SessionTokens, TokenError};

const AT: u64 = 1_700_000_000;

fn tokens() -> SessionTokens {
    SessionTokens::new("secret".to_string(), 3600)
}

#[test]
fn constants_have_their_wire_values() {
    assert_eq!(SESSION_COOKIE, "iceblink_jwt");
    assert_eq!(BEARER, "Bearer ");
    assert_eq!(UNAUTHENTICATED, 401);
}

#[test]
fn without_prefix_strips_exactly_the_prefix() {
    assert_eq!(without_prefix("Bearer abc", "Bearer "), Some("abc".to_string()));
    assert_eq!(without_prefix("Bearer ", "Bearer "), Some(String::new()));
    assert_eq!(without_prefix("Bearer  abc", "Bearer "), Some(" abc".to_string()));
    assert_eq!(without_prefix("Bearer", "Bearer "), None);
    assert_eq!(without_prefix("bearer abc", "Bearer "), None);
    assert_eq!(without_prefix("Basic abc", "Bearer "), None);
    assert_eq!(without_prefix("", "Bearer "), None);
    assert_eq!(without_prefix("abc", ""), Some("abc".to_string()));
    assert_eq!(without_prefix("äöü-x", "äö"), Some("ü-x".to_string()));
}

#[test]
fn cookie_finds_the_named_pair() {
    assert_eq!(cookie("iceblink_jwt=tok", "iceblink_jwt"), Some("tok".to_string()));
    assert_eq!(cookie("a=b; iceblink_jwt=tok; c=d", "iceblink_jwt"), Some("tok".to_string()));
    assert_eq!(cookie("a=b;iceblink_jwt=tok", "iceblink_jwt"), Some("tok".to_string()));
    assert_eq!(cookie("a=b;   iceblink_jwt=tok;", "iceblink_jwt"), Some("tok".to_string()));
    assert_eq!(cookie("iceblink_jwt=", "iceblink_jwt"), Some(String::new()));
    assert_eq!(cookie("iceblink_jwt=a=b", "iceblink_jwt"), Some("a=b".to_string()));
}

#[test]
fn cookie_takes_the_first_of_two() {
    assert_eq!(cookie("n=1; n=2", "n"), Some("1".to_string()));
}

#[test]
fn cookie_is_absent_without_the_exact_name() {
    assert_eq!(cookie("", "iceblink_jwt"), None);
    assert_eq!(cookie("a=b; c=d", "iceblink_jwt"), None);
    assert_eq!(cookie("iceblink_jwt", "iceblink_jwt"), None);
    assert_eq!(cookie("iceblink_jwt2=tok", "iceblink_jwt"), None);
    assert_eq!(cookie("xiceblink_jwt=tok", "iceblink_jwt"), None);
    assert_eq!(cookie("ICEBLINK_JWT=tok", "iceblink_jwt"), None);
    assert_eq!(cookie("a=iceblink_jwt=tok", "iceblink_jwt"), None);
    assert_eq!(cookie("iceblink_jwt =tok", "iceblink_jwt"), None);
}

#[test]
fn candidate_prefers_the_header() {
    assert_eq!(
        candidate_token(Some("Bearer from-header"), Some("iceblink_jwt=from-cookie")),
        Some("from-header".to_string())
    );
}

#[test]
fn candidate_falls_back_to_the_cookie() {
    assert_eq!(
        candidate_token(None, Some("iceblink_jwt=from-cookie")),
        Some("from-cookie".to_string())
    );
    assert_eq!(
        candidate_token(Some("Basic dXNlcjpwdw=="), Some("x=y; iceblink_jwt=from-cookie")),
        Some("from-cookie".to_string())
    );
}

#[test]
fn candidate_is_absent_without_both() {
    assert_eq!(candidate_token(None, None), None);
    assert_eq!(candidate_token(Some("Basic dXNlcjpwdw=="), None), None);
    assert_eq!(candidate_token(None, Some("other=1")), None);
    assert_eq!(candidate_token(Some("Token x"), Some("other=1")), None);
}

#[test]
fn authenticate_resolves_the_user_from_either_transport() {
    let tokens = tokens();
    let token = tokens.mint("user-1", AT).unwrap();
    let header = format!("Bearer {token}");
    let jar = format!("theme=dark; iceblink_jwt={token}");
    assert_eq!(tokens.authenticate(Some(&header), None, AT).unwrap(), "user-1");
    assert_eq!(tokens.authenticate(None, Some(&jar), AT).unwrap(), "user-1");
    assert_eq!(tokens.authenticate(Some(&header), Some(&jar), AT + 3600).unwrap(), "user-1");
}

#[test]
fn authenticate_rejects_a_request_without_a_token() {
    let tokens = tokens();
    assert_eq!(tokens.authenticate(None, None, AT).unwrap_err(), Rejection::MissingToken);
    assert_eq!(tokens.authenticate(Some("Basic abc"), Some("a=b"), AT).unwrap_err(), Rejection::MissingToken);
}

#[test]
fn authenticate_rejects_each_kind_of_bad_token() {
    let tokens = tokens();
    let token = tokens.mint("user-1", AT).unwrap();
    let header = format!("Bearer {token}");
    assert_eq!(
        tokens.authenticate(Some(&header), None, AT + 3601).unwrap_err(),
        Rejection::InvalidToken(TokenError::Expired)
    );
    assert_eq!(
        tokens.authenticate(Some("Bearer not-a-token"), None, AT).unwrap_err(),
        Rejection::InvalidToken(TokenError::Malformed)
    );
    let other = SessionTokens::new("other".to_string(), 3600);
    assert_eq!(
        other.authenticate(Some(&header), None, AT).unwrap_err(),
        Rejection::InvalidToken(TokenError::SignatureMismatch)
    );
}

#[test]
fn authenticate_does_not_fall_back_from_a_bad_header_token() {
    let tokens = tokens();
    let good = tokens.mint("user-1", AT).unwrap();
    let jar = format!("iceblink_jwt={good}");
    assert_eq!(
        tokens.authenticate(Some("Bearer broken"), Some(&jar), AT).unwrap_err(),
        Rejection::InvalidToken(TokenError::Malformed)
    );
}

#[test]
fn every_rejection_has_the_same_status() {
    for r in [
        Rejection::MissingToken,
        Rejection::InvalidToken(TokenError::Malformed),
        Rejection::InvalidToken(TokenError::SignatureMismatch),
        Rejection::InvalidToken(TokenError::Expired),
    ] {
        assert_eq!(r.status(), 401);
    }
}

#[test]
fn the_guard_stands_before_the_operations_on_user_data() {
    for op in [
        Operation::ListCodes,
        Operation::AddCode,
        Operation::EditCode,
        Operation::DeleteCode,
        Operation::FetchCodeIcon,
        Operation::Checksum,
        Operation::DeleteAccount,
    ] {
        assert!(op.needs_session());
    }
    for op in [Operation::Login, Operation::InstanceMetadata, Operation::Metrics] {
        assert!(!op.needs_session());
    }
}

use code_runner::auth::admit_login;
use code_runner::auth::admit_registration;
use code_runner::auth::authorization;
use code_runner::auth::bearer_token;
use code_runner::auth::AuthResponse;
use code_runner::auth::Claims;
use code_runner::auth::LoginRequest;
use code_runner::auth::RegisterRequest;
use code_runner::auth::Rejection;
use code_runner::auth::TOKEN_LIFETIME;
use code_runner::snippets::changed;
use code_runner::snippets::found;
use code_runner::snippets::CreateSnippetRequest;
use code_runner::snippets::CreateSnippetResponse;
use code_runner::snippets::PatchSnippetRequest;
use code_runner::snippets::UpdateSnippetRequest;

#[test]
fn bearer_token_is_what_follows_the_scheme() {
    assert_eq!(bearer_token("Bearer abc.def.ghi"), Ok("abc.def.ghi".to_string()));
    assert_eq!(bearer_token("Bearer "), Ok(String::new()));
    assert_eq!(bearer_token("Bearer  two"), Ok(" two".to_string()));
    assert_eq!(bearer_token("Bearer t\u{f8}ken"), Ok("t\u{f8}ken".to_string()));
}

#[test]
fn header_without_the_scheme_is_malformed() {
    for header in ["", "Bearer", "bearer abc", "Basic abc", "Beare r abc", " Bearer abc", "B\u{e9}arer x"]
    {
        assert_eq!(bearer_token(header), Err(Rejection::MalformedAuthorization));
    }
}

#[test]
fn authorization_tells_missing_from_unreadable_from_malformed() {
    assert_eq!(authorization(None), Err(Rejection::MissingAuthorization));
    assert_eq!(authorization(Some(None)), Err(Rejection::UnreadableAuthorization));
    assert_eq!(
        authorization(Some(Some("Token abc".to_string()))),
        Err(Rejection::MalformedAuthorization)
    );
    assert_eq!(authorization(Some(Some("Bearer abc".to_string()))), Ok("abc".to_string()));
}

#[test]
fn rejections_carry_status_and_words() {
    let cases = [
        (Rejection::MissingAuthorization, 401, "Missing Authorization header"),
        (Rejection::UnreadableAuthorization, 401, "Invalid Authorization header"),
        (Rejection::MalformedAuthorization, 401, "Invalid token format"),
        (Rejection::InvalidToken("ExpiredSignature".to_string()), 401, "Invalid token: ExpiredSignature"),
        (Rejection::UsernameTaken, 409, "Username already exists"),
        (Rejection::InvalidCredentials, 401, "Invalid credentials"),
        (Rejection::SnippetNotFound, 404, "Snippet not found"),
        (Rejection::SnippetUntouched, 404, "Snippet not found or unauthorized"),
        (Rejection::Internal("pool timed out".to_string()), 500, "pool timed out"),
    ];
    for (rejection, status, words) in cases {
        assert_eq!(rejection.status(), status);
        assert_eq!(rejection.message(), words);
    }
}

#[test]
fn claims_expire_a_day_after_issue() {
    assert_eq!(TOKEN_LIFETIME, 86400);
    assert_eq!(
        Claims::issue("user-1".to_string(), 1_700_000_000),
        Some(Claims { sub: "user-1".to_string(), exp: 1_700_086_400 })
    );
    assert_eq!(
        Claims::issue("u".to_string(), 0),
        Some(Claims { sub: "u".to_string(), exp: 86400 })
    );
}

#[test]
fn claims_are_not_issued_outside_the_representable_time() {
    assert_eq!(Claims::issue("u".to_string(), -1), None);
    assert_eq!(Claims::issue("u".to_string(), i64::MAX), None);
    assert_eq!(Claims::issue("u".to_string(), i64::MAX - 86399), None);
    assert!(Claims::issue("u".to_string(), i64::MAX - 86400).is_some() || usize::BITS < 64);
}

#[test]
fn registration_is_refused_for_a_taken_name() {
    assert_eq!(admit_registration(true), Err(Rejection::UsernameTaken));
    assert_eq!(admit_registration(false), Ok(()));
}

#[test]
fn login_is_refused_alike_for_unknown_user_and_wrong_password() {
    assert_eq!(admit_login(None), Err(Rejection::InvalidCredentials));
    assert_eq!(admit_login(Some(("id-7".to_string(), false))), Err(Rejection::InvalidCredentials));
    assert_eq!(admit_login(Some(("id-7".to_string(), true))), Ok("id-7".to_string()));
}

#[test]
fn patch_replaces_only_the_named_fields() {
    let both = PatchSnippetRequest { title: Some("T".to_string()), code: Some("C".to_string()) };
    assert_eq!(both.apply("t".to_string(), "c".to_string()), ("T".to_string(), "C".to_string()));
    let title = PatchSnippetRequest { title: Some("T".to_string()), code: None };
    assert_eq!(title.apply("t".to_string(), "c".to_string()), ("T".to_string(), "c".to_string()));
    let code = PatchSnippetRequest { title: None, code: Some(String::new()) };
    assert_eq!(code.apply("t".to_string(), "c".to_string()), ("t".to_string(), String::new()));
    let neither = PatchSnippetRequest { title: None, code: None };
    assert_eq!(neither.apply("t".to_string(), "c".to_string()), ("t".to_string(), "c".to_string()));
}

#[test]
fn lookup_without_a_row_is_not_found() {
    assert_eq!(found(Some(5)), Ok(5));
    assert_eq!(found::<u8>(None), Err(Rejection::SnippetNotFound));
}

#[test]
fn change_of_no_row_is_not_found() {
    assert_eq!(changed(0), Err(Rejection::SnippetUntouched));
    assert_eq!(changed(1), Ok(()));
    assert_eq!(changed(u64::MAX), Ok(()));
}

#[test]
fn bodies_hold_their_fields() {
    let register = RegisterRequest { username: "ada".to_string(), password: "pw".to_string() };
    let login = LoginRequest { username: "ada".to_string(), password: "pw".to_string() };
    assert_eq!(register.username, login.username);
    assert_eq!(register.password, login.password);
    assert_eq!(AuthResponse { token: "t".to_string() }.token, "t");
    let create = CreateSnippetRequest { title: "a".to_string(), code: "b".to_string() };
    let update = UpdateSnippetRequest { title: "a".to_string(), code: "b".to_string() };
    assert_eq!(create.title, update.title);
    assert_eq!(create.code, update.code);
    assert_eq!(CreateSnippetResponse { id: "i".to_string() }.id, "i");
}

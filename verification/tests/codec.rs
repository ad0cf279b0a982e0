use identity_client::decode_auth;
use identity_client::decode_login;
use identity_client::decode_login_response;
use identity_client::decode_signup;
use identity_client::decode_signup_response;
use identity_client::encode_auth;
use identity_client::encode_login;
use identity_client::encode_login_response;
use identity_client::encode_signup;
use identity_client::encode_signup_response;
use identity_client::AuthRequest;
use identity_client::LoginRequest;
use identity_client::LoginResponse;
use identity_client::SignupRequest;
use identity_client::SignupResponse;

#[test]
fn encode_login_exact() {
    let request = LoginRequest {
        username: String::from("alice"),
        password: String::from("secret"),
    };
    assert_eq!(encode_login(&request), "{\"username\":\"alice\",\"password\":\"secret\"}");
}

#[test]
fn encode_signup_exact() {
    let request = SignupRequest {
        username: String::from("bob"),
        email: String::from("bob@example.com"),
        password: String::from("hunter2"),
    };
    assert_eq!(
        encode_signup(&request),
        "{\"username\":\"bob\",\"email\":\"bob@example.com\",\"password\":\"hunter2\"}"
    );
}

#[test]
fn encode_auth_exact() {
    let request = AuthRequest { token: String::from("tok-123") };
    assert_eq!(encode_auth(&request), "{\"token\":\"tok-123\"}");
}

#[test]
fn encode_escapes_exact() {
    let request = AuthRequest { token: String::from("a\"b\\c\nd\re\tf") };
    assert_eq!(encode_auth(&request), "{\"token\":\"a\\\"b\\\\c\\nd\\re\\tf\"}");
}

#[test]
fn encode_empty_fields() {
    let request = LoginRequest { username: String::new(), password: String::new() };
    assert_eq!(encode_login(&request), "{\"username\":\"\",\"password\":\"\"}");
}

#[test]
fn round_trip_login() {
    let request = LoginRequest {
        username: String::from("alice"),
        password: String::from("secret"),
    };
    let decoded = decode_login(encode_login(&request).as_str()).unwrap();
    assert_eq!(decoded, request);
}

#[test]
fn round_trip_login_with_escapes() {
    let request = LoginRequest {
        username: String::from("we\"ird\\name"),
        password: String::from("line1\nline2\ttab\rret"),
    };
    let decoded = decode_login(encode_login(&request).as_str()).unwrap();
    assert_eq!(decoded, request);
}

#[test]
fn round_trip_signup() {
    let request = SignupRequest {
        username: String::from("bob"),
        email: String::from("bob@example.com"),
        password: String::from("hunter2"),
    };
    let decoded = decode_signup(encode_signup(&request).as_str()).unwrap();
    assert_eq!(decoded, request);
}

#[test]
fn round_trip_auth() {
    let request = AuthRequest { token: String::from("tok\t\"quoted\"") };
    let decoded = decode_auth(encode_auth(&request).as_str()).unwrap();
    assert_eq!(decoded, request);
}

#[test]
fn round_trip_login_response() {
    let response = LoginResponse { token: String::from("issued-token") };
    let decoded = decode_login_response(encode_login_response(&response).as_str()).unwrap();
    assert_eq!(decoded, response);
}

#[test]
fn round_trip_signup_response() {
    let response = SignupResponse { token: String::from("issued-token") };
    let decoded = decode_signup_response(encode_signup_response(&response).as_str()).unwrap();
    assert_eq!(decoded, response);
}

#[test]
fn round_trip_empty_strings() {
    let request = SignupRequest {
        username: String::new(),
        email: String::new(),
        password: String::new(),
    };
    let decoded = decode_signup(encode_signup(&request).as_str()).unwrap();
    assert_eq!(decoded, request);
}

#[test]
fn encoded_output_agrees_with_a_standard_json_parser() {
    let request = SignupRequest {
        username: String::from("we\"ird\\name"),
        email: String::from("tabs\tand\nbreaks\r"),
        password: String::from("plain ascii with spaces"),
    };
    let encoded = encode_signup(&request);
    let value: serde_json::Value = serde_json::from_str(encoded.as_str()).unwrap();
    let object = value.as_object().unwrap();
    assert_eq!(object.len(), 3);
    assert_eq!(object.get("username").unwrap().as_str().unwrap(), request.username);
    assert_eq!(object.get("email").unwrap().as_str().unwrap(), request.email);
    assert_eq!(object.get("password").unwrap().as_str().unwrap(), request.password);
}

#[test]
fn decode_rejects_empty_input() {
    assert!(decode_login("").is_none());
}

#[test]
fn decode_rejects_missing_close_brace() {
    assert!(decode_login("{\"username\":\"a\",\"password\":\"b\"").is_none());
}

#[test]
fn decode_rejects_trailing_garbage() {
    assert!(decode_login("{\"username\":\"a\",\"password\":\"b\"} ").is_none());
}

#[test]
fn decode_rejects_swapped_fields() {
    assert!(decode_login("{\"password\":\"b\",\"username\":\"a\"}").is_none());
}

#[test]
fn decode_rejects_unterminated_string() {
    assert!(decode_auth("{\"token\":\"abc}").is_none());
}

#[test]
fn decode_rejects_invalid_escape() {
    assert!(decode_auth("{\"token\":\"a\\qb\"}").is_none());
}

#[test]
fn decode_rejects_whitespace_variant() {
    assert!(decode_auth("{ \"token\": \"abc\" }").is_none());
}

#[test]
fn decode_rejects_wrong_record_shape() {
    assert!(decode_signup("{\"username\":\"a\",\"password\":\"b\"}").is_none());
    assert!(decode_login("{\"token\":\"a\"}").is_none());
}

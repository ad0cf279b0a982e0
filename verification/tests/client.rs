use identity_client::complete_post;
use identity_client::decode_login;
use identity_client::AuthRequest;
use identity_client::Error;
use identity_client::HttpResponse;
use identity_client::IdentityClient;
use identity_client::LoginRequest;
use identity_client::PreparedPost;
use identity_client::SignupRequest;

fn sample_login() -> LoginRequest {
    LoginRequest { username: String::from("alice"), password: String::from("secret") }
}

#[test]
fn login_request_prepares_url_and_body() {
    let client = IdentityClient::new(String::from("http://id.example.com"));
    let prepared = client.login_request(&sample_login()).unwrap();
    assert_eq!(prepared.url, "http://id.example.com/login");
    assert_eq!(prepared.body, "{\"username\":\"alice\",\"password\":\"secret\"}");
}

#[test]
fn signup_request_prepares_url_and_body() {
    let client = IdentityClient::new(String::from("http://id.example.com"));
    let request = SignupRequest {
        username: String::from("bob"),
        email: String::from("bob@example.com"),
        password: String::from("hunter2"),
    };
    let prepared = client.signup_request(&request).unwrap();
    assert_eq!(prepared.url, "http://id.example.com/signup");
    assert_eq!(
        prepared.body,
        "{\"username\":\"bob\",\"email\":\"bob@example.com\",\"password\":\"hunter2\"}"
    );
}

#[test]
fn auth_request_prepares_url_and_body() {
    let client = IdentityClient::new(String::from("http://id.example.com/"));
    let request = AuthRequest { token: String::from("tok-9") };
    let prepared = client.auth_request(&request).unwrap();
    assert_eq!(prepared.url, "http://id.example.com/auth");
    assert_eq!(prepared.body, "{\"token\":\"tok-9\"}");
}

/// A transport that always fails, whatever the prepared post says.
fn failing_transport(_post: &PreparedPost) -> Result<HttpResponse, String> {
    Err(String::from("connection refused"))
}

/// A transport that echoes the request body back as the response body.
fn echo_transport(post: &PreparedPost) -> Result<HttpResponse, String> {
    Ok(HttpResponse { status: 200, body: post.body.clone() })
}

#[test]
fn failing_transport_gives_transport_error_on_every_operation() {
    let client = IdentityClient::new(String::from("http://id.example.com"));
    let posts = [
        client.login_request(&sample_login()).unwrap(),
        client
            .signup_request(&SignupRequest {
                username: String::from("bob"),
                email: String::from("b@e"),
                password: String::from("pw"),
            })
            .unwrap(),
        client.auth_request(&AuthRequest { token: String::from("t") }).unwrap(),
    ];
    for post in posts {
        let result = complete_post(failing_transport(&post));
        match result {
            Err(Error::Transport(fault)) => assert_eq!(fault, "connection refused"),
            Err(Error::Serialization(_)) => panic!("serialization error from a transport fault"),
            Err(Error::UrlComposition(_)) => panic!("composition error from a transport fault"),
            Ok(_) => panic!("success from a failing transport"),
        }
    }
}

#[test]
fn response_passes_through_whatever_its_status() {
    let response = HttpResponse { status: 503, body: String::from("unavailable") };
    let result = complete_post(Ok(response.clone())).unwrap();
    assert_eq!(result, response);
}

#[test]
fn echo_transport_round_trips_the_login_body() {
    let client = IdentityClient::new(String::from("http://id.example.com"));
    let request = sample_login();
    let prepared = client.login_request(&request).unwrap();
    let response = complete_post(echo_transport(&prepared)).unwrap();
    let decoded = decode_login(response.body.as_str()).unwrap();
    assert_eq!(decoded, request);
}

#[test]
fn counting_transport_sees_one_call_per_operation() {
    let client = IdentityClient::new(String::from("http://id.example.com"));
    let mut calls: Vec<PreparedPost> = Vec::new();
    let n = 32;
    for _ in 0..n {
        let prepared = client.login_request(&sample_login()).unwrap();
        calls.push(prepared);
        let _ = complete_post(Ok(HttpResponse { status: 200, body: String::new() }));
    }
    assert_eq!(calls.len(), n);
    for post in &calls {
        assert_eq!(post.url, calls[0].url);
        assert_eq!(post.body, calls[0].body);
    }
}

#[test]
fn same_host_gives_byte_identical_posts() {
    let a = IdentityClient::new(String::from("http://id.example.com"));
    let b = IdentityClient::new(String::from("http://id.example.com"));
    let request = sample_login();
    let from_a = a.login_request(&request).unwrap();
    let from_b = b.login_request(&request).unwrap();
    assert_eq!(from_a.url, from_b.url);
    assert_eq!(from_a.body.as_bytes(), from_b.body.as_bytes());
}

#[test]
fn error_kinds_are_a_matchable_closed_set() {
    let kinds = [
        Error::Serialization(String::from("bad value")),
        Error::UrlComposition(String::from("bad path")),
        Error::Transport(String::from("timed out")),
    ];
    let mut seen = [false; 3];
    for kind in kinds {
        match kind {
            Error::Serialization(cause) => {
                assert_eq!(cause, "bad value");
                seen[0] = true;
            }
            Error::UrlComposition(cause) => {
                assert_eq!(cause, "bad path");
                seen[1] = true;
            }
            Error::Transport(cause) => {
                assert_eq!(cause, "timed out");
                seen[2] = true;
            }
        }
    }
    assert_eq!(seen, [true, true, true]);
}

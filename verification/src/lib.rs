//! Client-side core of a remote identity service: typed request records,
//! their JSON wire encoding, endpoint URL composition, and the dispatch
//! logic that ties them together. The network transport itself lives
//! outside this crate; everything here is pure and verified.

use vstd::prelude::*;

mod client;
mod codec;
mod records;
mod url;

pub use url::join_url;
pub use url::join_url_spec;
pub use url::lemma_join_url_single_separator;

pub use records::AuthRequest;
pub use records::LoginRequest;
pub use records::LoginResponse;
pub use records::SignupRequest;
pub use records::SignupResponse;

pub use codec::decode_auth;
pub use codec::decode_login;
pub use codec::decode_login_response;
pub use codec::decode_login_spec;
pub use codec::decode_signup;
pub use codec::decode_signup_response;
pub use codec::decode_signup_spec;
pub use codec::decode_token_spec;
pub use codec::encode_auth;
pub use codec::encode_login;
pub use codec::encode_login_response;
pub use codec::encode_login_spec;
pub use codec::encode_signup;
pub use codec::encode_signup_response;
pub use codec::encode_signup_spec;
pub use codec::encode_token_spec;
pub use codec::lemma_login_round_trip;
pub use codec::lemma_signup_round_trip;
pub use codec::lemma_token_round_trip;

pub use client::auth_endpoint;
pub use client::complete_post;
pub use client::complete_spec;
pub use client::lemma_same_host_same_posts;
pub use client::lemma_transport_outcome_taxonomy;
pub use client::login_endpoint;
pub use client::signup_endpoint;
pub use client::Error;
pub use client::HttpResponse;
pub use client::IdentityClient;
pub use client::PreparedPost;

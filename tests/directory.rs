use escrowblock::http::{http_request, str_contains, HttpRequest};
use escrowblock::identity::Identity;
use escrowblock::users::{UserDirectory, UserError};

fn who(b: u8) -> Identity {
    Identity::from_bytes(vec![b, 7])
}

fn request(url: &str) -> HttpRequest {
    HttpRequest {
        method: "GET".to_string(),
        url: url.to_string(),
        headers: Vec::new(),
        body: Vec::new(),
    }
}

#[test]
fn registration_is_once_per_identity() {
    let mut d = UserDirectory::new();
    assert_eq!(d.register_user(who(1), "alice".to_string(), true), Ok(()));
    assert_eq!(
        d.register_user(who(1), "again".to_string(), false),
        Err(UserError::AlreadyRegistered)
    );
    assert_eq!(d.register_user(who(2), "bob".to_string(), false), Ok(()));
    let all = d.list_users();
    let names: Vec<&str> = all.iter().map(|u| u.username.as_str()).collect();
    assert_eq!(names, vec!["alice", "bob"]);
    assert!(all[0].is_seller);
    assert!(!all[0].license_agreed);
}

#[test]
fn license_acceptance() {
    let mut d = UserDirectory::new();
    assert_eq!(d.agree_license(&who(1)), Err(UserError::NotRegistered));
    assert!(!d.has_agreed_license(&who(1)));
    d.register_user(who(1), "alice".to_string(), false).unwrap();
    assert!(!d.has_agreed_license(&who(1)));
    d.agree_license(&who(1)).unwrap();
    assert!(d.has_agreed_license(&who(1)));
    let u = d.authenticate_user(&who(1)).unwrap();
    assert_eq!(u.username, "alice");
    assert!(u.license_agreed);
    assert_eq!(d.authenticate_user(&who(3)).unwrap_err(), UserError::NotRegistered);
}

#[test]
fn substring_search() {
    assert!(str_contains("/authenticate?x=1", "authenticate"));
    assert!(str_contains("abc", ""));
    assert!(str_contains("abc", "abc"));
    assert!(!str_contains("ab", "abc"));
    assert!(!str_contains("/authentic", "authenticate"));
    assert!(str_contains("ééa", "éa"));
}

#[test]
fn authentication_requests_are_redirected() {
    let r = http_request(&request("https://x.example/authenticate"));
    assert_eq!(r.status_code, 302);
    assert_eq!(
        r.headers,
        vec![("Location".to_string(), "https://identity.ic0.app/".to_string())]
    );
    assert!(r.body.is_empty());
}

#[test]
fn other_requests_are_greeted() {
    let r = http_request(&request("/index.html"));
    assert_eq!(r.status_code, 200);
    assert_eq!(r.headers, vec![("Content-Type".to_string(), "text/plain".to_string())]);
    assert_eq!(r.body, b"Hello, World!".to_vec());
}


use zero2prod::form::parse_subscription_form;
use zero2prod::routes::{
    handle_request, insert_subscriber, subscribe, HandleStep, Method, RepositoryError,
    SubscriberStore,
};

fn post_subscriptions(body: &[u8]) -> HandleStep {
    handle_request(Method::Post, b"/subscriptions", body)
}

#[test]
fn valid_submission_stores_decoded_fields() {
    let mut store = SubscriberStore::new();
    let step = post_subscriptions(b"name=ursula&email=ursula_le_guin%40gmail.com");
    let response = match step {
        HandleStep::Insert(rec) => {
            store.insert(rec);
            subscribe(&Ok(()))
        }
        HandleStep::Respond(r) => r,
    };
    assert_eq!(200, response.status);
    assert_eq!(1, store.rows.len());
    assert_eq!(store.rows[0].email, "ursula_le_guin@gmail.com");
    assert_eq!(store.rows[0].name, "ursula");
}

#[test]
fn empty_body_is_rejected() {
    let step = post_subscriptions(b"");
    match step {
        HandleStep::Respond(r) => assert_eq!(400, r.status),
        HandleStep::Insert(_) => panic!("an empty body must not reach the repository"),
    }
}

#[test]
fn storage_failure_gives_opaque_500_and_no_row() {
    let mut store = SubscriberStore::new();
    let step = post_subscriptions(b"name=ursula&email=ursula_le_guin%40gmail.com");
    let response = match step {
        HandleStep::Insert(_rec) => {
            // The pool was unreachable: the insert failed, no row was appended.
            let outcome: Result<(), RepositoryError> = Err(RepositoryError {
                detail: String::from("connection refused"),
            });
            subscribe(&outcome)
        }
        HandleStep::Respond(r) => r,
    };
    assert_eq!(500, response.status);
    assert!(response.body.is_empty());
    assert_eq!(0, store.rows.len());
}

#[test]
fn duplicate_submission_appends_two_rows() {
    let mut store = SubscriberStore::new();
    for _ in 0..2 {
        match post_subscriptions(b"name=ursula&email=ursula_le_guin%40gmail.com") {
            HandleStep::Insert(rec) => store.insert(rec),
            HandleStep::Respond(_) => panic!("a well-formed submission must reach the repository"),
        }
    }
    assert_eq!(2, store.rows.len());
    assert_eq!(store.rows[0].email, store.rows[1].email);
    assert_eq!(store.rows[0].name, store.rows[1].name);
    assert_ne!(store.rows[0].id, store.rows[1].id);
}

#[test]
fn record_ids_are_version_4() {
    let form = match parse_subscription_form(b"name=a&email=b") {
        Some(f) => f,
        None => panic!("both fields are present"),
    };
    let rec = insert_subscriber(&form);
    assert_eq!(4, (rec.id >> 76) & 0xf);
    assert_eq!(2, (rec.id >> 62) & 0x3);
}

#[test]
fn percent_and_plus_decoding_is_exact() {
    let form = parse_subscription_form(b"name=a%2Bb%3D&email=x+y").unwrap();
    assert_eq!(form.name, "a+b=");
    assert_eq!(form.email, "x y");
}

#[test]
fn upper_and_lower_hex_digits_decode_alike() {
    let lower = parse_subscription_form(b"name=%2f&email=a").unwrap();
    let upper = parse_subscription_form(b"name=%2F&email=a").unwrap();
    assert_eq!(lower.name, "/");
    assert_eq!(upper.name, "/");
}

#[test]
fn lone_percent_stands_for_itself() {
    let form = parse_subscription_form(b"name=100%&email=a%2x").unwrap();
    assert_eq!(form.name, "100%");
    assert_eq!(form.email, "a%2x");
}

#[test]
fn invalid_utf8_decodes_to_replacement_character() {
    let form = parse_subscription_form(b"name=%FF&email=a").unwrap();
    assert_eq!(form.name, "\u{FFFD}");
    assert_eq!(form.email, "a");
}

#[test]
fn repeated_field_is_rejected() {
    assert!(parse_subscription_form(b"name=a&name=b&email=c").is_none());
    assert!(parse_subscription_form(b"name=a&email=b&email=c").is_none());
}

#[test]
fn unknown_keys_and_empty_segments_are_ignored() {
    let form = parse_subscription_form(b"&foo=1&&name=a&bar&email=b&").unwrap();
    assert_eq!(form.name, "a");
    assert_eq!(form.email, "b");
}

#[test]
fn present_but_empty_fields_are_accepted() {
    let form = parse_subscription_form(b"name=&email=").unwrap();
    assert_eq!(form.name, "");
    assert_eq!(form.email, "");
}

#[test]
fn keys_themselves_are_decoded() {
    let form = parse_subscription_form(b"n%61me=a&email=b").unwrap();
    assert_eq!(form.name, "a");
}

#[test]
fn field_without_equals_counts_as_present_and_empty() {
    let form = parse_subscription_form(b"name&email=b").unwrap();
    assert_eq!(form.name, "");
    assert_eq!(form.email, "b");
}

#[test]
fn unrouted_requests_get_404() {
    let cases: Vec<(Method, &[u8])> = vec![
        (Method::Get, b"/subscriptions".as_slice()),
        (Method::Post, b"/health".as_slice()),
        (Method::Get, b"/".as_slice()),
        (Method::Other, b"/health".as_slice()),
    ];
    for (method, path) in cases {
        match handle_request(method, path, b"name=a&email=b") {
            HandleStep::Respond(r) => assert_eq!(404, r.status),
            HandleStep::Insert(_) => panic!("an unrouted request must not reach the repository"),
        }
    }
}

#[test]
fn health_ignores_request_body() {
    match handle_request(Method::Get, b"/health", b"anything at all") {
        HandleStep::Respond(r) => {
            assert_eq!(200, r.status);
            assert_eq!(0, r.body.len());
        }
        HandleStep::Insert(_) => panic!("the liveness probe must not touch storage"),
    }
}

use zero2prod::routes::{handle_request, health, subscribe, HandleStep, Method, SubscriberStore};

#[test]
fn subscribe_returns_a_400_for_missing_data() {
    let cases = vec![
        ("name=ursula", "missing email"),
        ("email=ursula", "missing name"),
        ("", "missing both"),
    ];

    for (body, reason) in cases {
        let step = handle_request(Method::Post, b"/subscriptions", body.as_bytes());
        let status = match step {
            HandleStep::Respond(r) => r.status,
            HandleStep::Insert(_) => 200,
        };
        assert_eq!(
            400, status,
            "The API did not fail witha 400 when the payload was {}.",
            reason
        );
    }
}

#[test]
fn subscribe_returns_a_200_for_valid_form_data() {
    let mut store = SubscriberStore::new();

    let step = handle_request(
        Method::Post,
        b"/subscriptions",
        b"name=le%20guin&email=ursula_le_guin%40gmail.com",
    );
    let response = match step {
        HandleStep::Insert(rec) => {
            store.insert(rec);
            subscribe(&Ok(()))
        }
        HandleStep::Respond(r) => r,
    };

    assert_eq!(200, response.status);
    assert_eq!(1, store.rows.len());
    let saved = &store.rows[0];
    assert_eq!(saved.email, "ursula_le_guin@gmail.com");
    assert_eq!(saved.name, "le guin");
}

#[test]
fn health_check_works() {
    let response = health();
    assert!(200 <= response.status && response.status < 300);
    assert_eq!(0, response.body.len());
}

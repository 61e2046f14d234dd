use alpha_g_data_handler::message::ServerResponse;
use alpha_g_data_handler::ticket::{
    authorize_download, check_ticket, content_disposition, issue_ticket, redeem_ticket,
    send_download_jwt, send_download_jwt_at, ticket_message, Claims, TicketError, TICKET_VALIDITY,
};

fn now() -> u64 {
    jsonwebtoken::get_current_timestamp()
}

#[test]
fn ticket_expiry() {
    let issued = 1_700_000_000;
    let claims = Claims::new(String::from("/cache/42/file"), issued);
    assert_eq!(TICKET_VALIDITY, 120);
    assert_eq!(claims.exp(), issued + 120);
    assert_eq!(claims.path, "/cache/42/file");
    assert!(claims.is_current(issued));
    assert!(claims.is_current(issued + 60));
    assert!(claims.is_current(issued + 120));
    assert!(!claims.is_current(issued + 121));
    assert!(!claims.is_current(u64::MAX));
    assert_eq!(Claims::new(String::new(), u64::MAX - 5).exp(), u64::MAX);
    assert_eq!(Claims::new(String::new(), u64::MAX - 120).exp(), u64::MAX);
    assert_eq!(Claims::until(String::from("p"), 5).exp(), 5);
}

#[test]
fn a_ticket_is_taken_after_a_minute_and_refused_after_two() {
    let path = "/cache/42/R42_sequencer.csv";
    let issued = now() - 90;
    let token = issue_ticket(path, Some("secret"), issued).unwrap();
    assert_eq!(redeem_ticket(&token, Some("secret"), issued + 60).unwrap(), path);
    assert_eq!(redeem_ticket(&token, Some("secret"), issued + 120).unwrap(), path);
    assert!(matches!(
        redeem_ticket(&token, Some("secret"), issued + 121),
        Err(TicketError::Expired)
    ));
    let old = issue_ticket(path, Some("secret"), now() - 121).unwrap();
    assert!(matches!(authorize_download(&old, Some("secret")), Err(TicketError::Expired)));
    let fresh = issue_ticket(path, Some("secret"), now() - 60).unwrap();
    assert_eq!(authorize_download(&fresh, Some("secret")).unwrap(), path);
}

#[test]
fn tickets_hold_the_path_and_the_expiry() {
    let issued = now();
    let token = issue_ticket("/tmp/x/R1_plot.pdf", Some("secret"), issued).unwrap();
    assert_ne!(token, "/tmp/x/R1_plot.pdf");
    assert_ne!(token, "secret");
    let data = jsonwebtoken::decode::<serde_json::Value>(
        &token,
        &jsonwebtoken::DecodingKey::from_secret(b"secret"),
        &jsonwebtoken::Validation::default(),
    )
    .unwrap();
    assert_eq!(data.claims.get("exp").unwrap().as_u64(), Some(issued + 120));
    assert_eq!(data.claims.get("path").unwrap().as_str(), Some("/tmp/x/R1_plot.pdf"));
    assert_eq!(data.claims.as_object().unwrap().len(), 2);
    let again = issue_ticket("/tmp/x/R1_plot.pdf", Some("secret"), issued).unwrap();
    assert_eq!(token, again);
}

#[test]
fn a_ticket_needs_the_right_signature() {
    let token = issue_ticket("/cache/1/f", Some("secret"), now()).unwrap();
    match redeem_ticket(&token, Some("another secret"), now()) {
        Err(TicketError::Invalid(why)) => {
            assert!(why.contains("InvalidSignature"));
            assert_eq!(
                TicketError::Invalid(why.clone()).message(),
                format!("failed to decode JWT string: {why}")
            );
        }
        other => panic!("{other:?}"),
    }
    assert!(matches!(
        redeem_ticket("not a token", Some("secret"), now()),
        Err(TicketError::Invalid(_))
    ));
    assert!(matches!(redeem_ticket("", Some("secret"), 0), Err(TicketError::Invalid(_))));
}

#[test]
fn no_secret_no_ticket() {
    assert!(matches!(
        issue_ticket("/cache/1/f", None, 0),
        Err(TicketError::SigningUnavailable)
    ));
    assert!(matches!(
        redeem_ticket("token", None, 0),
        Err(TicketError::SigningUnavailable)
    ));
    assert!(matches!(authorize_download("token", None), Err(TicketError::SigningUnavailable)));
    let message = send_download_jwt("ui", "r1", "/cache/1/f", None);
    assert_eq!(message.service, "ui");
    assert_eq!(message.context, "r1");
    match message.response {
        ServerResponse::Error(text) => assert_eq!(text, "Error: JWT secret not set in server"),
        other => panic!("{other:?}"),
    }
}

#[test]
fn tickets_are_sent_as_tickets() {
    let message = send_download_jwt("ui", "r1", "/cache/1/f", Some("secret"));
    assert_eq!(message.service, "ui");
    assert_eq!(message.context, "r1");
    match message.response {
        ServerResponse::DownloadJWT(token) => {
            assert_eq!(authorize_download(&token, Some("secret")).unwrap(), "/cache/1/f");
            let data = jsonwebtoken::decode::<serde_json::Value>(
                &token,
                &jsonwebtoken::DecodingKey::from_secret(b"secret"),
                &jsonwebtoken::Validation::default(),
            )
            .unwrap();
            let expires = data.claims.get("exp").unwrap().as_u64().unwrap();
            assert!(expires >= now() + 118 && expires <= now() + 120);
        }
        other => panic!("{other:?}"),
    }
    let message = ticket_message("s", "c", Ok(String::from("token")));
    assert!(matches!(message.response, ServerResponse::DownloadJWT(token) if token == "token"));
    let message = ticket_message("s", "c", Err(TicketError::SigningFailed(String::from("why"))));
    assert!(matches!(message.response, ServerResponse::Error(text) if text == "Error: why"));
    let message = ticket_message("s", "c", Err(TicketError::Expired));
    assert!(matches!(message.response, ServerResponse::Error(text) if text == "Error: the JWT has expired"));
}

#[test]
fn judging_what_a_token_says() {
    let good = Ok((Some(100), Some(String::from("/p"))));
    assert_eq!(check_ticket(good, 100).unwrap(), "/p");
    let good = Ok((Some(100), Some(String::from("/p"))));
    assert!(matches!(check_ticket(good, 101), Err(TicketError::Expired)));
    assert!(matches!(
        check_ticket(Ok((None, Some(String::from("/p")))), 0),
        Err(TicketError::Invalid(why)) if why == "the claims lack the expiry or the path"
    ));
    assert!(matches!(check_ticket(Ok((Some(5), None)), 0), Err(TicketError::Invalid(_))));
    assert!(matches!(check_ticket(Ok((None, None)), 0), Err(TicketError::Invalid(_))));
    assert!(matches!(
        check_ticket(Err(String::from("bad")), 0),
        Err(TicketError::Invalid(why)) if why == "bad"
    ));
}

#[test]
fn a_token_without_a_path_is_no_ticket() {
    let mut claims = serde_json::Map::new();
    claims.insert(String::from("exp"), serde_json::Value::from(now() + 100));
    let token = jsonwebtoken::encode(
        &jsonwebtoken::Header::default(),
        &claims,
        &jsonwebtoken::EncodingKey::from_secret(b"secret"),
    )
    .unwrap();
    assert!(matches!(
        redeem_ticket(&token, Some("secret"), now()),
        Err(TicketError::Invalid(why)) if why == "the claims lack the expiry or the path"
    ));
}

#[test]
fn the_header_names_the_file() {
    assert_eq!(content_disposition("R42_sequencer.csv"), "attachment; filename=\"R42_sequencer.csv\"");
    assert_eq!(content_disposition(""), "attachment; filename=\"\"");
}

#[test]
fn with_a_secret_the_answer_is_a_ticket_for_the_path() {
    let issued = now();
    let message = send_download_jwt_at("ui", "r1", "/cache/42/R42_sequencer.csv", Some("k"), issued);
    assert_eq!(message.service, "ui");
    assert_eq!(message.context, "r1");
    let token = match message.response {
        ServerResponse::DownloadJWT(token) => token,
        other => panic!("{other:?}"),
    };
    assert_eq!(token, issue_ticket("/cache/42/R42_sequencer.csv", Some("k"), issued).unwrap());
    let data = jsonwebtoken::decode::<serde_json::Value>(
        &token,
        &jsonwebtoken::DecodingKey::from_secret(b"k"),
        &jsonwebtoken::Validation::default(),
    )
    .unwrap();
    assert_eq!(data.claims.get("exp").unwrap().as_u64(), Some(issued + 120));
    assert_eq!(data.claims.get("path").unwrap().as_str(), Some("/cache/42/R42_sequencer.csv"));

    let message = send_download_jwt_at("ui", "r1", "/cache/42/R42_sequencer.csv", None, issued);
    assert_eq!(message.service, "ui");
    assert_eq!(message.context, "r1");
    assert!(matches!(
        message.response,
        ServerResponse::Error(text) if text == "Error: JWT secret not set in server"
    ));
}

#[test]
fn a_ticket_is_signed_whatever_the_secret_and_the_path() {
    for secret in ["", "k", "a longer secret with spaces", "ключ"] {
        for path in ["", "/", "/cache/1/R1_vertices.csv", "/tmp/é/plot \"1\".pdf"] {
            for issued in [0, 1, now(), u64::MAX - 120, u64::MAX] {
                let token = issue_ticket(path, Some(secret), issued).unwrap();
                assert_eq!(token.split('.').count(), 3);
                assert!(matches!(
                    send_download_jwt("s", "c", path, Some(secret)).response,
                    ServerResponse::DownloadJWT(_)
                ));
            }
        }
    }
}

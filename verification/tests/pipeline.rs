use adfs_rs::codec::decode_token;
use adfs_rs::extract::{extract_hidden_value, parse_assertion, ParseError, SamlAttribute, SamlAssertion};
use adfs_rs::flow::{
    exchange_step, login_step, process_login_response, ExchangeError, ExchangeEvent,
    ExchangeState, FlowError, LoginEvent, LoginState, SessionCredentials,
};
use adfs_rs::render::{AdfsConfig, TargetCredentials};
use adfs_rs::roles::{select_role, split_entry, RoleError};
use base64::Engine;

fn fixture_xml() -> String {
    let mut s = String::new();
    s.push_str("<Response><Assertion><AttributeStatement>");
    s.push_str("<Attribute Name=\"https://aws.amazon.com/SAML/Attributes/Role\">");
    s.push_str("<AttributeValue>arnP1,arn:aws:iam::111:role/Admin</AttributeValue>");
    s.push_str("<AttributeValue>arnP2,arn:aws:iam::111:role/Dev</AttributeValue>");
    s.push_str("</Attribute>");
    s.push_str("</AttributeStatement></Assertion></Response>");
    s
}

fn fixture_body(token: &str) -> String {
    let mut s = String::new();
    s.push_str("<html><body><form method=\"POST\"><input type=\"hidden\" value=\"");
    s.push_str(token);
    s.push_str("\"/></form></body></html>");
    s
}

fn role_attribute(name: &str, values: &[&str]) -> SamlAttribute {
    SamlAttribute {
        name: name.as_bytes().to_vec(),
        values: values.iter().map(|v| v.as_bytes().to_vec()).collect(),
    }
}

#[test]
fn extraction_recovers_token_by_round_trip() {
    let xml = fixture_xml();
    let token = base64::engine::general_purpose::STANDARD.encode(xml.as_bytes());
    let body = fixture_body(&token);
    let extracted = extract_hidden_value(body.as_bytes()).unwrap();
    assert_eq!(extracted, token.as_bytes().to_vec());
    let decoded = decode_token(&extracted).unwrap();
    assert_eq!(decoded, xml.as_bytes().to_vec());
    let reencoded = base64::engine::general_purpose::STANDARD.encode(&decoded);
    assert_eq!(reencoded.as_bytes().to_vec(), extracted);
}

#[test]
fn extraction_fails_without_hidden_input() {
    let r = extract_hidden_value(b"<html><body>no form here</body></html>");
    assert_eq!(r, Err(ParseError::MissingToken));
}

#[test]
fn extraction_fails_on_two_hidden_inputs() {
    let body = "<input value=\"one\"/><input value=\"two\"/>";
    let r = extract_hidden_value(body.as_bytes());
    assert_eq!(r, Err(ParseError::MissingToken));
}

#[test]
fn decode_rejects_invalid_base64() {
    let r = decode_token(b"!!!not-base64!!!");
    assert_eq!(r, Err(ParseError::InvalidEncoding));
}

#[test]
fn decode_rejects_invalid_utf8_payload() {
    let token = base64::engine::general_purpose::STANDARD.encode([0xffu8, 0xfe, 0x00, 0x80]);
    let r = decode_token(token.as_bytes());
    assert_eq!(r, Err(ParseError::InvalidEncoding));
}

#[test]
fn decode_is_not_the_identity() {
    let token = base64::engine::general_purpose::STANDARD.encode(b"hello");
    let decoded = decode_token(token.as_bytes()).unwrap();
    assert_eq!(decoded, b"hello".to_vec());
    assert_ne!(decoded, token.as_bytes().to_vec());
}

#[test]
fn parse_assertion_reads_names_and_values() {
    let xml = fixture_xml();
    let assertion = parse_assertion(xml.as_bytes()).unwrap();
    assert_eq!(assertion.attributes.len(), 1);
    assert_eq!(
        assertion.attributes[0].name,
        b"https://aws.amazon.com/SAML/Attributes/Role".to_vec()
    );
    assert_eq!(
        assertion.attributes[0].values,
        vec![
            b"arnP1,arn:aws:iam::111:role/Admin".to_vec(),
            b"arnP2,arn:aws:iam::111:role/Dev".to_vec(),
        ]
    );
}

#[test]
fn parse_assertion_fails_without_attribute_statement() {
    let r = parse_assertion(b"<Response><Assertion></Assertion></Response>");
    assert_eq!(r.err(), Some(ParseError::InvalidAssertion));
}

#[test]
fn parse_assertion_fails_on_unclosed_attribute() {
    let xml = "<AttributeStatement><Attribute Name=\"x/Role\"><AttributeValue>v</AttributeValue>";
    let r = parse_assertion(xml.as_bytes());
    assert_eq!(r.err(), Some(ParseError::InvalidAssertion));
}

#[test]
fn role_lookup_requires_role_suffix() {
    let assertion = SamlAssertion {
        attributes: vec![role_attribute(
            "https://aws.amazon.com/SAML/Attributes/RoleSessionName",
            &["arnP1,arn:aws:iam::111:role/Admin"],
        )],
    };
    let r = select_role(&assertion, b"Admin");
    assert_eq!(r.err(), Some(RoleError::RoleAttributeMissing));
}

#[test]
fn split_entry_recovers_both_fields() {
    let p = split_entry(b"arnP1,arn:aws:iam::111:role/Admin").unwrap();
    assert_eq!(p.principal_arn, b"arnP1".to_vec());
    assert_eq!(p.role_arn, b"arn:aws:iam::111:role/Admin".to_vec());
}

#[test]
fn split_entry_rejects_wrong_field_counts() {
    assert_eq!(split_entry(b"nocommahere").err(), Some(RoleError::MalformedEntry));
    assert_eq!(split_entry(b"a,b,c").err(), Some(RoleError::MalformedEntry));
}

#[test]
fn malformed_entry_fails_before_later_match() {
    let assertion = SamlAssertion {
        attributes: vec![role_attribute(
            "https://aws.amazon.com/SAML/Attributes/Role",
            &["bad,entry,here", "arnP2,arn:aws:iam::111:role/Dev"],
        )],
    };
    let r = select_role(&assertion, b"Dev");
    assert_eq!(r.err(), Some(RoleError::MalformedEntry));
}

#[test]
fn role_selection_is_deterministic() {
    let assertion = SamlAssertion {
        attributes: vec![role_attribute(
            "https://aws.amazon.com/SAML/Attributes/Role",
            &["arnP1,arn:aws:iam::111:role/Admin", "arnP2,arn:aws:iam::111:role/Dev"],
        )],
    };
    let p = select_role(&assertion, b"Dev").unwrap();
    assert_eq!(p.principal_arn, b"arnP2".to_vec());
    assert_eq!(p.role_arn, b"arn:aws:iam::111:role/Dev".to_vec());
    let r = select_role(&assertion, b"NoSuchRole");
    assert_eq!(r.err(), Some(RoleError::RoleNotFound));
}

#[test]
fn first_matching_entry_wins() {
    let assertion = SamlAssertion {
        attributes: vec![role_attribute(
            "https://aws.amazon.com/SAML/Attributes/Role",
            &["arnP1,arn:aws:iam::111:role/Dev", "arnP2,arn:aws:iam::111:role/Dev"],
        )],
    };
    let p = select_role(&assertion, b"Dev").unwrap();
    assert_eq!(p.principal_arn, b"arnP1".to_vec());
}

#[test]
fn output_format_with_account_id() {
    let config = AdfsConfig {
        target_credentials: TargetCredentials {
            access_key_id: String::from("AKIA1"),
            secret_access_key: String::from("secret1"),
            session_token: String::from("token1"),
        },
        account_id: Some(String::from("123456789012")),
    };
    let expected = "export AWS_ACCESS_KEY_ID=AKIA1\nexport AWS_SECRET_ACCESS_KEY=secret1\nexport AWS_SESSION_TOKEN=token1\nexport AWS_ACCOUNT_ID=123456789012";
    assert_eq!(config.render(), expected);
}

#[test]
fn output_format_without_account_id_has_empty_fourth_line() {
    let config = AdfsConfig {
        target_credentials: TargetCredentials {
            access_key_id: String::from("AKIA1"),
            secret_access_key: String::from("secret1"),
            session_token: String::from("token1"),
        },
        account_id: None,
    };
    let expected = "export AWS_ACCESS_KEY_ID=AKIA1\nexport AWS_SECRET_ACCESS_KEY=secret1\nexport AWS_SESSION_TOKEN=token1\n";
    assert_eq!(config.render(), expected);
}

#[test]
fn login_retries_once_then_surfaces_second_outcome() {
    let s1 = login_step(LoginState::FirstAttempt, LoginEvent::HttpFailure);
    assert!(matches!(s1, LoginState::RetryPending));
    let s2 = login_step(s1, LoginEvent::Success(String::from("body")));
    match s2 {
        LoginState::Done(b) => assert_eq!(b, "body"),
        _ => panic!("expected the retry's success to be surfaced"),
    }
    let f1 = login_step(LoginState::FirstAttempt, LoginEvent::HttpFailure);
    let f2 = login_step(f1, LoginEvent::HttpFailure);
    assert!(matches!(f2, LoginState::Failed));
}

#[test]
fn login_first_success_and_transport_failure() {
    match login_step(LoginState::FirstAttempt, LoginEvent::Success(String::from("ok"))) {
        LoginState::Done(b) => assert_eq!(b, "ok"),
        _ => panic!("expected an immediate success to finish the flow"),
    }
    let s = login_step(LoginState::FirstAttempt, LoginEvent::TransportFailure);
    assert!(matches!(s, LoginState::Failed));
}

fn fixture_target_credentials() -> TargetCredentials {
    TargetCredentials {
        access_key_id: String::from("AKIA1"),
        secret_access_key: String::from("secret1"),
        session_token: String::from("token1"),
    }
}

fn fixture_session_credentials() -> SessionCredentials {
    SessionCredentials {
        access_key_id: String::from("ASIA0"),
        secret_access_key: String::from("secret0"),
        session_token: String::from("token0"),
    }
}

#[test]
fn exchange_chain_reaches_done() {
    let s1 = exchange_step(
        ExchangeState::RoleSelected,
        ExchangeEvent::FederationSuccess(fixture_session_credentials()),
    );
    assert!(matches!(s1, ExchangeState::SessionCredentialed(_)));
    let s2 = exchange_step(s1, ExchangeEvent::AssumeSuccess(fixture_target_credentials()));
    assert!(matches!(s2, ExchangeState::TargetCredentialed(_)));
    let s3 = exchange_step(
        s2,
        ExchangeEvent::IdentitySuccess(Some(String::from("123456789012"))),
    );
    match s3 {
        ExchangeState::Done(cfg) => {
            let expected = "export AWS_ACCESS_KEY_ID=AKIA1\nexport AWS_SECRET_ACCESS_KEY=secret1\nexport AWS_SESSION_TOKEN=token1\nexport AWS_ACCOUNT_ID=123456789012";
            assert_eq!(cfg.render(), expected);
        }
        _ => panic!("expected the chain to finish"),
    }
}

#[test]
fn exchange_aborts_on_each_failure() {
    let aborted = exchange_step(ExchangeState::RoleSelected, ExchangeEvent::FederationFailure);
    assert!(matches!(aborted, ExchangeState::Aborted(ExchangeError::FederationError)));
    let aborted = exchange_step(
        ExchangeState::SessionCredentialed(fixture_session_credentials()),
        ExchangeEvent::AssumeFailure,
    );
    assert!(matches!(aborted, ExchangeState::Aborted(ExchangeError::AssumeRoleError)));
    let aborted = exchange_step(
        ExchangeState::TargetCredentialed(fixture_target_credentials()),
        ExchangeEvent::IdentityFailure,
    );
    assert!(matches!(aborted, ExchangeState::Aborted(ExchangeError::AssumeRoleError)));
}

#[test]
fn end_to_end_fixture_to_artifact() {
    let xml = fixture_xml();
    let token = base64::engine::general_purpose::STANDARD.encode(xml.as_bytes());
    let body = fixture_body(&token);
    let selection = process_login_response(body.as_bytes(), b"Dev").unwrap();
    assert_eq!(selection.saml_token, token.as_bytes().to_vec());
    assert_eq!(selection.principal.principal_arn, b"arnP2".to_vec());
    assert_eq!(selection.principal.role_arn, b"arn:aws:iam::111:role/Dev".to_vec());
    let config = AdfsConfig {
        target_credentials: TargetCredentials {
            access_key_id: String::from("AKIA1"),
            secret_access_key: String::from("secret1"),
            session_token: String::from("token1"),
        },
        account_id: Some(String::from("123456789012")),
    };
    let expected = "export AWS_ACCESS_KEY_ID=AKIA1\nexport AWS_SECRET_ACCESS_KEY=secret1\nexport AWS_SESSION_TOKEN=token1\nexport AWS_ACCOUNT_ID=123456789012";
    assert_eq!(config.render(), expected);
}

#[test]
fn process_login_response_reports_each_stage() {
    let no_token = process_login_response(b"<html></html>", b"Dev");
    assert!(matches!(no_token, Err(FlowError::Parse(ParseError::MissingToken))));
    let bad_b64 = process_login_response(b"<input value=\"%%%\"/>", b"Dev");
    assert!(matches!(bad_b64, Err(FlowError::Parse(ParseError::InvalidEncoding))));
    let bad_xml_token = base64::engine::general_purpose::STANDARD.encode(b"<NotAnAssertion/>");
    let bad_xml_body = fixture_body(&bad_xml_token);
    let bad_xml = process_login_response(bad_xml_body.as_bytes(), b"Dev");
    assert!(matches!(bad_xml, Err(FlowError::Parse(ParseError::InvalidAssertion))));
    let good = fixture_body(&base64::engine::general_purpose::STANDARD.encode(fixture_xml()));
    let no_role = process_login_response(good.as_bytes(), b"NoSuchRole");
    assert!(matches!(no_role, Err(FlowError::Role(RoleError::RoleNotFound))));
}

use mfa_session::aws::{
    credentials_of, list_mfa_devices_arguments, mfa_devices_of, list_mfa_devices, get_session_token,
    get_session_token_arguments, text_of_member, Credentials,
};
use mfa_session::failure::Failure;
use mfa_session::json::{read_json, Json};

fn text(value: &str) -> Json {
    Json::Text(value.to_string())
}

fn object(members: Vec<(&str, Json)>) -> Json {
    Json::Object(members.into_iter().map(|(name, value)| (name.to_string(), value)).collect())
}

#[test]
fn list_mfa_devices_arguments_name_the_profile() {
    assert_eq!(
        list_mfa_devices_arguments("work"),
        vec!["iam", "list-mfa-devices", "--profile", "work"]
    );
}

#[test]
fn get_session_token_arguments_name_profile_device_and_code() {
    assert_eq!(
        get_session_token_arguments("work", "arn:aws:iam::111:mfa/dev", "123456"),
        vec![
            "sts",
            "get-session-token",
            "--profile",
            "work",
            "--serial-number",
            "arn:aws:iam::111:mfa/dev",
            "--token-code",
            "123456"
        ]
    );
}

#[test]
fn list_mfa_devices_reads_the_serial_numbers() {
    let output = br#"{"MFADevices":[{"SerialNumber":"arn:aws:iam::111:mfa/dev"}]}"#;
    assert_eq!(list_mfa_devices(output), Ok(vec!["arn:aws:iam::111:mfa/dev".to_string()]));
}

#[test]
fn list_mfa_devices_keeps_the_order_of_the_service() {
    let output = br#"{
        "MFADevices": [
            {"UserName": "u", "SerialNumber": "zeta", "EnableDate": "2020-01-01T00:00:00Z"},
            {"UserName": "u", "SerialNumber": "alpha"},
            {"SerialNumber": "mid", "Extra": [1, 2.5, null, true]}
        ]
    }"#;
    assert_eq!(
        list_mfa_devices(output),
        Ok(vec!["zeta".to_string(), "alpha".to_string(), "mid".to_string()])
    );
}

#[test]
fn list_mfa_devices_without_devices_is_empty() {
    assert_eq!(list_mfa_devices(br#"{"MFADevices":[]}"#), Ok(Vec::new()));
}

#[test]
fn list_mfa_devices_rejects_malformed_json() {
    assert_eq!(list_mfa_devices(b"{\"MFADevices\":["), Err(Failure::ParseError));
    assert_eq!(list_mfa_devices(b""), Err(Failure::ParseError));
    assert_eq!(list_mfa_devices(b"An error occurred (AccessDenied)"), Err(Failure::ParseError));
}

#[test]
fn list_mfa_devices_rejects_another_shape() {
    assert_eq!(list_mfa_devices(br#"{"Devices":[]}"#), Err(Failure::ParseError));
    assert_eq!(list_mfa_devices(br#"{"MFADevices":{}}"#), Err(Failure::ParseError));
    assert_eq!(list_mfa_devices(br#"{"MFADevices":[{"SerialNumber":7}]}"#), Err(Failure::ParseError));
    assert_eq!(list_mfa_devices(br#"{"MFADevices":[{"Serial":"x"}]}"#), Err(Failure::ParseError));
    assert_eq!(list_mfa_devices(br#"{"MFADevices":["x"]}"#), Err(Failure::ParseError));
    assert_eq!(list_mfa_devices(br#"[{"SerialNumber":"x"}]"#), Err(Failure::ParseError));
    assert_eq!(
        list_mfa_devices(br#"{"MFADevices":[{"SerialNumber":"a"},{"SerialNumber":null}]}"#),
        Err(Failure::ParseError)
    );
}

#[test]
fn get_session_token_reads_the_credentials() {
    let output = br#"{
        "Credentials": {
            "AccessKeyId": "AKIA1",
            "SecretAccessKey": "secret1",
            "SessionToken": "tok1",
            "Expiration": "2030-01-01T00:00:00Z"
        }
    }"#;
    assert_eq!(
        get_session_token(output),
        Ok(Credentials {
            access_key_id: "AKIA1".to_string(),
            secret_access_key: "secret1".to_string(),
            session_token: "tok1".to_string(),
        })
    );
}

#[test]
fn get_session_token_rejects_what_is_no_credentials() {
    assert_eq!(get_session_token(b"not json"), Err(Failure::ParseError));
    assert_eq!(get_session_token(br#"{"Credentials":null}"#), Err(Failure::ParseError));
    assert_eq!(
        get_session_token(br#"{"Credentials":{"AccessKeyId":"a","SecretAccessKey":"s"}}"#),
        Err(Failure::ParseError)
    );
    assert_eq!(
        get_session_token(
            br#"{"Credentials":{"AccessKeyId":"a","SecretAccessKey":"s","SessionToken":1}}"#
        ),
        Err(Failure::ParseError)
    );
    assert_eq!(
        get_session_token(br#"{"Error":{"Code":"AccessDenied","Message":"MultiFactorAuthentication failed"}}"#),
        Err(Failure::ParseError)
    );
}

#[test]
fn mfa_devices_of_a_document() {
    let document = object(vec![(
        "MFADevices",
        Json::Array(vec![
            object(vec![("SerialNumber", text("one"))]),
            object(vec![("Other", Json::Null), ("SerialNumber", text("two"))]),
        ]),
    )]);
    assert_eq!(mfa_devices_of(&document), Ok(vec!["one".to_string(), "two".to_string()]));
    assert_eq!(mfa_devices_of(&Json::Null), Err(Failure::ParseError));
    assert_eq!(
        mfa_devices_of(&object(vec![("MFADevices", text("none"))])),
        Err(Failure::ParseError)
    );
}

#[test]
fn credentials_of_a_document() {
    let document = object(vec![(
        "Credentials",
        object(vec![
            ("SessionToken", text("t")),
            ("AccessKeyId", text("a")),
            ("SecretAccessKey", text("s")),
        ]),
    )]);
    assert_eq!(
        credentials_of(&document),
        Ok(Credentials {
            access_key_id: "a".to_string(),
            secret_access_key: "s".to_string(),
            session_token: "t".to_string(),
        })
    );
    assert_eq!(credentials_of(&object(vec![])), Err(Failure::ParseError));
    assert_eq!(credentials_of(&Json::Array(Vec::new())), Err(Failure::ParseError));
}

#[test]
fn first_member_of_a_name_counts() {
    let document = object(vec![("k", text("first")), ("k", text("second"))]);
    assert_eq!(text_of_member(&document, "k"), Some("first".to_string()));
    assert_eq!(document.member("k"), Some(&text("first")));
    assert_eq!(document.member("other"), None);
    assert_eq!(text_of_member(&object(vec![("k", Json::Bool(true))]), "k"), None);
    assert_eq!(text("x").member("k"), None);
}

#[test]
fn items_and_text_of_a_document() {
    let array = Json::Array(vec![Json::Null, Json::Bool(false)]);
    assert_eq!(array.items(), Some(&vec![Json::Null, Json::Bool(false)]));
    assert_eq!(array.text(), None);
    assert_eq!(text("x").text(), Some(&"x".to_string()));
    assert_eq!(text("x").items(), None);
}

#[test]
fn read_json_gives_the_tree() {
    let document = read_json(br#"{"b": [true, null, "x", -3, 1.5], "a": {"n": 10}}"#).unwrap();
    let expected = object(vec![
        ("a", object(vec![("n", Json::Number("10".to_string()))])),
        (
            "b",
            Json::Array(vec![
                Json::Bool(true),
                Json::Null,
                text("x"),
                Json::Number("-3".to_string()),
                Json::Number("1.5".to_string()),
            ]),
        ),
    ]);
    assert_eq!(document, expected);
}

#[test]
fn read_json_rejects_what_is_no_document() {
    assert_eq!(read_json(b"{"), Err(Failure::ParseError));
    assert_eq!(read_json(b"[1,]"), Err(Failure::ParseError));
    assert_eq!(read_json(b"1 2"), Err(Failure::ParseError));
    assert_eq!(read_json(&[0xff]), Err(Failure::ParseError));
}

#[test]
fn read_json_keeps_the_last_of_repeated_members() {
    let document = read_json(br#"{"k": "first", "k": "second"}"#).unwrap();
    assert_eq!(document, object(vec![("k", text("second"))]));
}

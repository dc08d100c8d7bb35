//! What is asked of the `aws` command, and what its answers mean.
//!
//! Running the command is the caller's part. This module gives the
//! arguments of the two calls and reads the JSON that they print.

use vstd::prelude::*;

use crate::failure::Failure;
use crate::json::{read_json, Json, JsonView};
use crate::text::texts;
use crate::trusted::json_document;

verus! {

/// Temporary credentials of one session.
#[derive(Debug, PartialEq, Eq)]
pub struct Credentials {
    pub access_key_id: String,
    pub secret_access_key: String,
    pub session_token: String,
}

/// What a [`Credentials`] value stands for.
pub struct CredentialsView {
    pub access_key_id: Seq<char>,
    pub secret_access_key: Seq<char>,
    pub session_token: Seq<char>,
}

impl View for Credentials {
    type V = CredentialsView;

    open spec fn view(&self) -> CredentialsView {
        CredentialsView {
            access_key_id: self.access_key_id@,
            secret_access_key: self.secret_access_key@,
            session_token: self.session_token@,
        }
    }
}

/// The arguments of the call that lists the MFA devices of `profile`.
pub open spec fn spec_list_mfa_devices_arguments(profile: Seq<char>) -> Seq<Seq<char>> {
    seq!["iam"@, "list-mfa-devices"@, "--profile"@, profile]
}

/// The arguments of the call that asks for a session token for `profile`,
/// with the one-time `code` of `device`.
pub open spec fn spec_get_session_token_arguments(
    profile: Seq<char>,
    device: Seq<char>,
    code: Seq<char>,
) -> Seq<Seq<char>> {
    seq![
        "sts"@,
        "get-session-token"@,
        "--profile"@,
        profile,
        "--serial-number"@,
        device,
        "--token-code"@,
        code,
    ]
}

/// The arguments to run `aws` with to list the MFA devices of `profile`.
pub fn list_mfa_devices_arguments(profile: &str) -> (arguments: Vec<String>)
    ensures
        texts(arguments@) == spec_list_mfa_devices_arguments(profile@),
{
    let mut arguments: Vec<String> = Vec::new();
    arguments.push("iam".to_owned());
    arguments.push("list-mfa-devices".to_owned());
    arguments.push("--profile".to_owned());
    arguments.push(profile.to_owned());
    arguments
}

/// The arguments to run `aws` with to get a session token for `profile`,
/// with the one-time `code` of `device`.
pub fn get_session_token_arguments(profile: &str, device: &str, code: &str) -> (arguments: Vec<String>)
    ensures
        texts(arguments@) == spec_get_session_token_arguments(profile@, device@, code@),
{
    let mut arguments: Vec<String> = Vec::new();
    arguments.push("sts".to_owned());
    arguments.push("get-session-token".to_owned());
    arguments.push("--profile".to_owned());
    arguments.push(profile.to_owned());
    arguments.push("--serial-number".to_owned());
    arguments.push(device.to_owned());
    arguments.push("--token-code".to_owned());
    arguments.push(code.to_owned());
    arguments
}

/// The string that the member `name` of `object` holds, where it holds one.
pub open spec fn text_member(object: JsonView, name: Seq<char>) -> Option<Seq<char>> {
    match object.member(name) {
        Some(value) => value.text(),
        None => None,
    }
}

/// The serial numbers of the device records under `MFADevices`, in the
/// order of the records. The document is malformed unless it is an object
/// whose member `MFADevices` is an array of objects, each with a string
/// under `SerialNumber`.
pub open spec fn device_serials(document: JsonView) -> Result<Seq<Seq<char>>, Failure> {
    match document.member("MFADevices"@) {
        Some(JsonView::Array(records)) => {
            if forall|i: int|
                0 <= i < records.len() ==> text_member(#[trigger] records[i], "SerialNumber"@) is Some {
                Ok(records.map_values(|record: JsonView| text_member(record, "SerialNumber"@)->0))
            } else {
                Err(Failure::ParseError)
            }
        },
        _ => Err(Failure::ParseError),
    }
}

/// The credentials under `Credentials`. The document is malformed unless it
/// is an object whose member `Credentials` is an object with strings under
/// `AccessKeyId`, `SecretAccessKey` and `SessionToken`.
pub open spec fn session_credentials(document: JsonView) -> Result<CredentialsView, Failure> {
    match document.member("Credentials"@) {
        Some(record) => match (
            text_member(record, "AccessKeyId"@),
            text_member(record, "SecretAccessKey"@),
            text_member(record, "SessionToken"@),
        ) {
            (Some(access_key_id), Some(secret_access_key), Some(session_token)) => Ok(
                CredentialsView { access_key_id, secret_access_key, session_token },
            ),
            _ => Err(Failure::ParseError),
        },
        None => Err(Failure::ParseError),
    }
}

/// The string that the member `name` of `object` holds; `None` where
/// `object` is no object, has no such member, or holds no string there.
pub fn text_of_member(object: &Json, name: &str) -> (found: Option<String>)
    ensures
        match found {
            Some(text) => text_member(object@, name@) == Some(text@),
            None => text_member(object@, name@) is None,
        },
{
    match object.member(name) {
        Some(value) => match value.text() {
            Some(text) => Some(text.clone()),
            None => None,
        },
        None => None,
    }
}

/// The serial numbers of the MFA devices that `document` lists.
pub fn mfa_devices_of(document: &Json) -> (devices: Result<Vec<String>, Failure>)
    ensures
        match devices {
            Ok(serials) => device_serials(document@) == Ok::<Seq<Seq<char>>, Failure>(
                texts(serials@),
            ),
            Err(failure) => device_serials(document@) == Err::<Seq<Seq<char>>, Failure>(failure),
        },
{
    let records = match document.member("MFADevices") {
        Some(value) => match value.items() {
            Some(records) => records,
            None => {
                return Err(Failure::ParseError);
            },
        },
        None => {
            return Err(Failure::ParseError);
        },
    };
    let ghost seen = Seq::new(records.len() as nat, |k: int| records[k]@);
    let mut serials: Vec<String> = Vec::new();
    let mut i: usize = 0;
    while i < records.len()
        invariant
            i <= records.len(),
            document@.member("MFADevices"@) == Some(JsonView::Array(seen)),
            seen.len() == records.len(),
            forall|k: int| 0 <= k < seen.len() ==> #[trigger] seen[k] == records[k]@,
            serials.len() == i,
            forall|k: int|
                0 <= k < i ==> text_member(#[trigger] seen[k], "SerialNumber"@) == Some(
                    serials[k]@,
                ),
        decreases records.len() - i,
    {
        match text_of_member(&records[i], "SerialNumber") {
            Some(serial) => {
                serials.push(serial);
            },
            None => {
                assert(text_member(seen[i as int], "SerialNumber"@) is None);
                return Err(Failure::ParseError);
            },
        }
        i += 1;
    }
    assert(texts(serials@) =~= seen.map_values(
        |record: JsonView| text_member(record, "SerialNumber"@)->0,
    ));
    Ok(serials)
}

/// The session credentials that `document` holds.
pub fn credentials_of(document: &Json) -> (credentials: Result<Credentials, Failure>)
    ensures
        match credentials {
            Ok(found) => session_credentials(document@) == Ok::<CredentialsView, Failure>(found@),
            Err(failure) => session_credentials(document@) == Err::<CredentialsView, Failure>(
                failure,
            ),
        },
{
    let record = match document.member("Credentials") {
        Some(record) => record,
        None => {
            return Err(Failure::ParseError);
        },
    };
    let access_key_id = text_of_member(record, "AccessKeyId");
    let secret_access_key = text_of_member(record, "SecretAccessKey");
    let session_token = text_of_member(record, "SessionToken");
    match (access_key_id, secret_access_key, session_token) {
        (Some(access_key_id), Some(secret_access_key), Some(session_token)) => Ok(
            Credentials { access_key_id, secret_access_key, session_token },
        ),
        _ => Err(Failure::ParseError),
    }
}

/// What the output of the call that lists MFA devices means: the serial
/// numbers in the order given, or `ParseError` where the output is not JSON
/// or not of that shape.
pub open spec fn spec_list_mfa_devices(output: Seq<u8>) -> Result<Seq<Seq<char>>, Failure> {
    match json_document(output) {
        Some(document) => device_serials(document),
        None => Err(Failure::ParseError),
    }
}

/// What the output of the call that asks for a session token means: the
/// credentials, or `ParseError` where the output is not JSON or not of that
/// shape.
pub open spec fn spec_get_session_token(output: Seq<u8>) -> Result<CredentialsView, Failure> {
    match json_document(output) {
        Some(document) => session_credentials(document),
        None => Err(Failure::ParseError),
    }
}

/// The serial numbers of the MFA devices of a profile, in the order of the
/// service, from what the call that lists them printed.
pub fn list_mfa_devices(output: &[u8]) -> (devices: Result<Vec<String>, Failure>)
    ensures
        match devices {
            Ok(serials) => spec_list_mfa_devices(output@) == Ok::<Seq<Seq<char>>, Failure>(
                texts(serials@),
            ),
            Err(failure) => spec_list_mfa_devices(output@) == Err::<Seq<Seq<char>>, Failure>(
                failure,
            ),
        },
{
    match read_json(output) {
        Ok(document) => mfa_devices_of(&document),
        Err(failure) => Err(failure),
    }
}

/// The session credentials, from what the call that asks for a session
/// token printed. A call that the service turned down printed no
/// credentials: that is a `ParseError` like any other malformed output.
pub fn get_session_token(output: &[u8]) -> (credentials: Result<Credentials, Failure>)
    ensures
        match credentials {
            Ok(found) => spec_get_session_token(output@) == Ok::<CredentialsView, Failure>(
                found@,
            ),
            Err(failure) => spec_get_session_token(output@) == Err::<CredentialsView, Failure>(
                failure,
            ),
        },
{
    match read_json(output) {
        Ok(document) => credentials_of(&document),
        Err(failure) => Err(failure),
    }
}

} // verus!

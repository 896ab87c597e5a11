//! The registered ChatGPT application as Windows reports it: the JSON
//! record with its executable path and application user model ID.
use vstd::prelude::*;

verus! {

pub const PACKAGE_INFO_ERROR_PREFIX: &'static str = "读取 ChatGPT 应用包信息失败：";

pub const MISSING_EXECUTABLE_MESSAGE: &'static str = "应用包缺少可执行文件路径";

pub const MISSING_AUMID_MESSAGE: &'static str = "应用包缺少应用标识符";

pub const EXECUTABLE_KEY: &'static str = "executable";

pub const AUMID_KEY: &'static str = "aumid";

/// The ChatGPT application registered for the current user.
pub struct RegisteredApp {
    /// The full path of its executable.
    pub executable: String,
    /// Its application user model ID, `<package family>!<application id>`.
    pub aumid: String,
}

/// Whether `serde_json` accepts these bytes as one JSON document.
pub uninterp spec fn json_accepts(bytes: Seq<u8>) -> bool;

/// The message of the error that `serde_json` reports for bytes it refuses.
pub uninterp spec fn json_error_message(bytes: Seq<u8>) -> Seq<char>;

/// The text of the member named `key` of the JSON document in these bytes,
/// as `serde_json` reads it: `None` where the bytes are not JSON, the
/// document has no such member, or the member is not a string.
pub uninterp spec fn json_string_member(bytes: Seq<u8>, key: Seq<char>) -> Option<Seq<char>>;

/// `serde_json::from_slice::<serde_json::Value>`: succeeds exactly on the
/// documents it accepts; a refusal is reported by its error's message.
#[verifier::external_body]
fn parse_json(bytes: &[u8]) -> (r: Result<(), String>)
    ensures
        r is Ok == json_accepts(bytes@),
        r matches Err(message) ==> message@ == json_error_message(bytes@),
{
    match serde_json::from_slice::<serde_json::Value>(bytes) {
        Ok(_) => Ok(()),
        Err(error) => Err(error.to_string()),
    }
}

/// `serde_json::from_slice::<serde_json::Value>`, then `Value::get` with the
/// key and `Value::as_str` on the member: the text of that string member.
#[verifier::external_body]
fn read_json_string_member(bytes: &[u8], key: &str) -> (r: Option<String>)
    ensures
        text_option_view(r) == json_string_member(bytes@, key@),
{
    match serde_json::from_slice::<serde_json::Value>(bytes) {
        Ok(value) => match value.get(key) {
            Some(member) => member.as_str().map(String::from),
            None => None,
        },
        Err(_) => None,
    }
}

pub open spec fn app_result_view(r: Result<RegisteredApp, String>) -> Result<(Seq<char>, Seq<char>), Seq<char>> {
    match r {
        Ok(app) => Ok((app.executable@, app.aumid@)),
        Err(message) => Err(message@),
    }
}

/// What the two fields of the record make: both are needed, and the
/// executable is looked at first.
pub open spec fn app_from_fields(executable: Option<Seq<char>>, aumid: Option<Seq<char>>) -> Result<
    (Seq<char>, Seq<char>),
    Seq<char>,
> {
    match executable {
        None => Err(MISSING_EXECUTABLE_MESSAGE@),
        Some(path) => match aumid {
            None => Err(MISSING_AUMID_MESSAGE@),
            Some(id) => Ok((path, id)),
        },
    }
}

pub open spec fn text_option_view(t: Option<String>) -> Option<Seq<char>> {
    match t {
        Some(s) => Some(s@),
        None => None,
    }
}

/// The registered app from the string values of the record's `executable`
/// and `aumid` members (`None` where a member is missing or not a string).
pub fn registered_app_from_fields(executable: Option<String>, aumid: Option<String>) -> (r: Result<
    RegisteredApp,
    String,
>)
    ensures
        app_result_view(r) == app_from_fields(text_option_view(executable), text_option_view(aumid)),
{
    let executable = match executable {
        Some(path) => path,
        None => {
            return Err(String::from_str(MISSING_EXECUTABLE_MESSAGE));
        },
    };
    let aumid = match aumid {
        Some(id) => id,
        None => {
            return Err(String::from_str(MISSING_AUMID_MESSAGE));
        },
    };
    Ok(RegisteredApp { executable, aumid })
}

/// Reads the JSON record that PowerShell printed for the registered app.
/// Bytes that are not JSON are refused with the parser's message; otherwise
/// the record's string members `executable` and `aumid` decide, as
/// `registered_app_from_fields` states.
pub fn registered_app_from_output(output: &[u8]) -> (r: Result<RegisteredApp, String>)
    ensures
        !json_accepts(output@) ==> app_result_view(r) == Err::<(Seq<char>, Seq<char>), Seq<char>>(
            PACKAGE_INFO_ERROR_PREFIX@ + json_error_message(output@),
        ),
        json_accepts(output@) ==> app_result_view(r) == app_from_fields(
            json_string_member(output@, EXECUTABLE_KEY@),
            json_string_member(output@, AUMID_KEY@),
        ),
{
    match parse_json(output) {
        Ok(()) => {},
        Err(error) => {
            let mut message = String::from_str(PACKAGE_INFO_ERROR_PREFIX);
            message.append(error.as_str());
            return Err(message);
        },
    }
    let executable = read_json_string_member(output, EXECUTABLE_KEY);
    let aumid = read_json_string_member(output, AUMID_KEY);
    registered_app_from_fields(executable, aumid)
}

} // verus!

use startchatgpt::packaged::{
    registered_app_from_fields, registered_app_from_output, MISSING_AUMID_MESSAGE, MISSING_EXECUTABLE_MESSAGE,
    PACKAGE_INFO_ERROR_PREFIX,
};

#[test]
fn reads_the_registered_app_record() {
    let app = registered_app_from_output(
        br#"{"executable":"C:\\Program Files\\WindowsApps\\x\\app\\ChatGPT.exe","aumid":"OpenAI.Codex_2p2nqsd0c76g0!App"}"#,
    )
    .unwrap();
    assert_eq!(app.executable, "C:\\Program Files\\WindowsApps\\x\\app\\ChatGPT.exe");
    assert_eq!(app.aumid, "OpenAI.Codex_2p2nqsd0c76g0!App");
}

#[test]
fn refuses_incomplete_or_invalid_records() {
    let error = registered_app_from_output(b"not json").err().unwrap();
    assert!(error.starts_with(PACKAGE_INFO_ERROR_PREFIX));
    assert!(error.len() > PACKAGE_INFO_ERROR_PREFIX.len());
    assert_eq!(
        registered_app_from_output(br#"{"aumid":"x"}"#).err().unwrap(),
        MISSING_EXECUTABLE_MESSAGE
    );
    assert_eq!(
        registered_app_from_output(br#"{"executable":"C:\\a.exe","aumid":7}"#).err().unwrap(),
        MISSING_AUMID_MESSAGE
    );
    assert_eq!(registered_app_from_output(b"[1,2]").err().unwrap(), MISSING_EXECUTABLE_MESSAGE);
    assert_eq!(
        registered_app_from_fields(None, None).err().unwrap(),
        MISSING_EXECUTABLE_MESSAGE
    );
}

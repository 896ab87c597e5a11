use startchatgpt::config::{ProxySetting, DEFAULT_PROXY, PROXY_SCHEME_MESSAGE};
use startchatgpt::settings::{
    initial_address, scale, FormEffect, SettingsForm, ID_CANCEL, ID_DEFAULT, ID_DIRECT, ID_SAVE,
};

fn is_close(effects: &[FormEffect]) -> bool {
    matches!(effects, [FormEffect::Close])
}

#[test]
fn form_starts_from_the_current_setting() {
    let form = SettingsForm::new(&ProxySetting::Direct);
    assert!(form.direct_checked && form.result.is_none() && !form.finished);
    assert_eq!(initial_address(&ProxySetting::Direct), DEFAULT_PROXY);
    assert_eq!(initial_address(&ProxySetting::Proxy("http://h:1".into())), "http://h:1");
    assert!(!SettingsForm::new(&ProxySetting::default()).direct_checked);
}

#[test]
fn toggling_direct_twice_restores_the_form() {
    let mut form = SettingsForm::new(&ProxySetting::default());
    let effects = form.handle_command(ID_DIRECT, "");
    assert!(form.direct_checked);
    assert!(matches!(effects.as_slice(), [FormEffect::EnableAddress(false), FormEffect::RedrawDirect]));
    let effects = form.handle_command(ID_DIRECT, "");
    assert!(!form.direct_checked);
    assert!(matches!(
        effects.as_slice(),
        [FormEffect::EnableAddress(true), FormEffect::RedrawDirect, FormEffect::FocusAddress]
    ));
}

#[test]
fn saving_produces_the_checked_or_typed_setting() {
    let mut form = SettingsForm::new(&ProxySetting::Direct);
    assert!(is_close(&form.handle_command(ID_SAVE, "garbage")));
    assert!(form.finished);
    assert_eq!(form.result, Some(ProxySetting::Direct));

    let mut form = SettingsForm::new(&ProxySetting::default());
    assert!(is_close(&form.handle_command(ID_SAVE, " socks5://h:1 ")));
    assert_eq!(form.result, Some(ProxySetting::Proxy("socks5://h:1".into())));
}

#[test]
fn an_invalid_address_keeps_the_form_open() {
    let mut form = SettingsForm::new(&ProxySetting::default());
    let effects = form.handle_command(ID_SAVE, "ftp://h");
    assert!(!form.finished && form.result.is_none());
    match effects.as_slice() {
        [FormEffect::ShowError(message), FormEffect::FocusAddress] => assert_eq!(message, PROXY_SCHEME_MESSAGE),
        _ => panic!("unexpected effects"),
    }
}

#[test]
fn default_and_cancel_buttons() {
    let mut form = SettingsForm::new(&ProxySetting::Direct);
    let effects = form.handle_command(ID_DEFAULT, "");
    assert!(!form.direct_checked);
    match effects.as_slice() {
        [FormEffect::SetAddress(text), FormEffect::RedrawDirect, FormEffect::EnableAddress(true), FormEffect::FocusAddress] => {
            assert_eq!(text, DEFAULT_PROXY)
        }
        _ => panic!("unexpected effects"),
    }
    assert!(is_close(&form.handle_command(ID_CANCEL, "")));
    assert!(form.finished && form.result.is_none());
    let mut other = SettingsForm::new(&ProxySetting::Direct);
    assert!(other.handle_command(9999, "").is_empty());
    assert!(other.direct_checked && !other.finished);
    other.close();
    assert!(other.finished && other.result.is_none());
}

#[test]
fn scales_lengths_to_the_screen_dpi() {
    assert_eq!(scale(580, 96), 580);
    assert_eq!(scale(580, 144), 870);
    assert_eq!(scale(3, 120), 4);
    assert_eq!(scale(1, 120), 1);
    assert_eq!(scale(-3, 96), -2);
}

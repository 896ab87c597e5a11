use startchatgpt::config::{launch_setting, stored_setting};
use startchatgpt::config::{
    config_content, parse, ProxySetting, DEFAULT_PROXY, EMPTY_PROXY_MESSAGE, PROXY_SCHEME_MESSAGE,
    SPACE_IN_PROXY_MESSAGE, UNRECOGNIZED_CONFIG_MESSAGE,
};

#[test]
fn parses_proxy_and_direct_modes() {
    assert_eq!(
        parse("proxy=http://127.0.0.1:7890\n").unwrap(),
        ProxySetting::Proxy("http://127.0.0.1:7890".into())
    );
    assert_eq!(parse("direct\n").unwrap(), ProxySetting::Direct);
}

#[test]
fn validates_proxy_scheme() {
    assert!(ProxySetting::proxy("socks5://127.0.0.1:10808").is_ok());
    assert!(ProxySetting::proxy("127.0.0.1:10808").is_err());
    assert!(ProxySetting::proxy("http://bad address").is_err());
}

#[test]
fn proxy_trims_surrounding_white_space() {
    assert_eq!(
        ProxySetting::proxy(" \t https://proxy.example:443 \u{3000}\n").unwrap(),
        ProxySetting::Proxy("https://proxy.example:443".into())
    );
    assert!(ProxySetting::proxy("socks4://h:1").is_ok());
    assert!(ProxySetting::proxy("http://").is_ok());
}

#[test]
fn proxy_errors_name_their_reason() {
    assert_eq!(ProxySetting::proxy("   ").unwrap_err(), EMPTY_PROXY_MESSAGE);
    assert_eq!(ProxySetting::proxy("").unwrap_err(), EMPTY_PROXY_MESSAGE);
    assert_eq!(
        ProxySetting::proxy("http://a\u{a0}b").unwrap_err(),
        SPACE_IN_PROXY_MESSAGE
    );
    assert_eq!(ProxySetting::proxy("ftp://host:21").unwrap_err(), PROXY_SCHEME_MESSAGE);
    assert_eq!(ProxySetting::proxy("HTTP://host:80").unwrap_err(), PROXY_SCHEME_MESSAGE);
}

#[test]
fn parse_accepts_direct_in_any_case_and_refuses_other_text() {
    assert_eq!(parse("  DiReCt \r\n").unwrap(), ProxySetting::Direct);
    assert_eq!(parse("directly").unwrap_err(), UNRECOGNIZED_CONFIG_MESSAGE);
    assert_eq!(parse("").unwrap_err(), UNRECOGNIZED_CONFIG_MESSAGE);
    assert_eq!(parse("Proxy=http://h:1").unwrap_err(), UNRECOGNIZED_CONFIG_MESSAGE);
    assert_eq!(parse("proxy=").unwrap_err(), EMPTY_PROXY_MESSAGE);
    assert_eq!(parse("proxy= http://h:1").unwrap(), ProxySetting::Proxy("http://h:1".into()));
}

#[test]
fn saved_text_reads_back_as_the_same_setting() {
    for setting in [
        ProxySetting::Direct,
        ProxySetting::default(),
        ProxySetting::proxy("socks5://10.0.0.1:1080").unwrap(),
    ] {
        let text = config_content(&setting);
        assert_eq!(parse(&text).unwrap(), setting);
    }
    assert_eq!(config_content(&ProxySetting::Direct), "direct\n");
    assert_eq!(
        config_content(&ProxySetting::Proxy("http://h:1".into())),
        "proxy=http://h:1\n"
    );
}

#[test]
fn default_setting_uses_the_local_proxy() {
    assert_eq!(ProxySetting::default(), ProxySetting::Proxy(DEFAULT_PROXY.into()));
    assert_eq!(DEFAULT_PROXY, "http://127.0.0.1:10808");
}

#[test]
fn proxy_url_and_launch_argument() {
    let setting = ProxySetting::Proxy("http://127.0.0.1:7890".into());
    assert_eq!(setting.proxy_url(), Some("http://127.0.0.1:7890"));
    assert_eq!(
        setting.launch_argument().as_deref(),
        Some("--proxy-server=http://127.0.0.1:7890")
    );
    assert_eq!(ProxySetting::Direct.proxy_url(), None);
    assert_eq!(ProxySetting::Direct.launch_argument(), None);
}

#[test]
fn a_missing_config_file_means_the_default_setting() {
    assert_eq!(stored_setting(None).unwrap(), ProxySetting::Proxy(DEFAULT_PROXY.into()));
    assert_eq!(stored_setting(Some("direct")).unwrap(), ProxySetting::Direct);
    assert_eq!(stored_setting(Some("nonsense")).err().unwrap(), UNRECOGNIZED_CONFIG_MESSAGE);
    let saved = ProxySetting::Proxy("socks5://h:1".into());
    assert_eq!(launch_setting(None, saved.clone()), saved);
    assert_eq!(launch_setting(Some(ProxySetting::Direct), saved), ProxySetting::Direct);
}

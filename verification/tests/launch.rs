use startchatgpt::config::{ProxySetting, EMPTY_PROXY_MESSAGE, PROXY_SCHEME_MESSAGE};
use startchatgpt::launch::{find_chatgpt, launch_wait, parse_launch_options, window_check_due, LaunchWait};

fn texts(args: &[&'static str]) -> Vec<(&'static str, Option<String>)> {
    args.iter().map(|a| (*a, Some(a.to_string()))).collect()
}

#[test]
fn parses_launcher_options_without_forwarding_them() {
    let options = parse_launch_options(texts(&[
        "--settings",
        "--proxy=http://127.0.0.1:7890",
        "--some-chatgpt-option",
    ]))
    .unwrap();
    assert!(options.show_settings);
    assert_eq!(
        options.proxy_override,
        Some(ProxySetting::Proxy("http://127.0.0.1:7890".into()))
    );
    assert_eq!(options.forwarded, ["--some-chatgpt-option"]);
}

#[test]
fn later_proxy_options_win_and_raw_arguments_are_forwarded() {
    let mut args = texts(&["a", "--proxy=socks5://h:1", "--no-proxy"]);
    args.insert(1, ("raw", None));
    let options = parse_launch_options(args).unwrap();
    assert!(!options.show_settings);
    assert_eq!(options.proxy_override, Some(ProxySetting::Direct));
    assert_eq!(options.forwarded, ["a", "raw"]);
    let empty = parse_launch_options(Vec::<(u8, Option<String>)>::new()).unwrap();
    assert!(!empty.show_settings && empty.proxy_override.is_none() && empty.forwarded.is_empty());
}

#[test]
fn an_invalid_proxy_option_is_refused() {
    let error = parse_launch_options(texts(&["--proxy=", "--proxy=ftp://h"])).err().unwrap();
    assert_eq!(error, EMPTY_PROXY_MESSAGE);
    let error = parse_launch_options(texts(&["x", "--proxy=ftp://h"])).err().unwrap();
    assert_eq!(error, PROXY_SCHEME_MESSAGE);
}

#[test]
fn package_query_runs_only_when_the_scan_fails() {
    let found = find_chatgpt(Ok("C:\\a\\chatgpt.exe".to_string()), || -> Result<String, String> {
        panic!("the package query must not run")
    });
    assert_eq!(found.unwrap(), "C:\\a\\chatgpt.exe");
    let queried = find_chatgpt(Err("scan".to_string()), || Ok("C:\\b\\chatgpt.exe".to_string()));
    assert_eq!(queried.unwrap(), "C:\\b\\chatgpt.exe");
    let failed: Result<String, String> = find_chatgpt(Err("scan failed".to_string()), || Err("query failed".to_string()));
    assert_eq!(failed.unwrap_err(), "scan failed\nquery failed");
}

#[test]
fn waiting_for_the_window_ends_in_order() {
    assert!(!window_check_due(499));
    assert!(window_check_due(500));
    assert_eq!(launch_wait(400, true, false), LaunchWait::Waiting);
    assert_eq!(launch_wait(500, true, true), LaunchWait::Ready);
    assert_eq!(launch_wait(400, true, true), LaunchWait::ChildFailed);
    assert_eq!(launch_wait(60_000, false, false), LaunchWait::TimedOut);
    assert_eq!(launch_wait(59_999, false, false), LaunchWait::Waiting);
}

#[test]
fn only_large_windows_count_as_main_windows() {
    assert!(startchatgpt::launch::is_main_window_size(0, 0, 240, 160));
    assert!(!startchatgpt::launch::is_main_window_size(10, 10, 249, 500));
    assert!(!startchatgpt::launch::is_main_window_size(0, 0, 800, 159));
}

#[test]
fn usage_options_are_the_launchers_own() {
    let options = parse_launch_options(texts(&["--usage-only"])).unwrap();
    assert!(options.usage_only && !options.usage_widget);
    assert!(options.forwarded.is_empty());
    let options = parse_launch_options(texts(&["x", "--usage-widget", "y"])).unwrap();
    assert!(!options.usage_only && options.usage_widget);
    assert_eq!(options.forwarded, ["x", "y"]);
    let options = parse_launch_options(texts(&["--usage-widget", "--usage-only"])).unwrap();
    assert!(options.usage_only && options.usage_widget);
    assert!(options.forwarded.is_empty());
    let options = parse_launch_options(texts(&["--usage-only=1"])).unwrap();
    assert!(!options.usage_only);
    assert_eq!(options.forwarded, ["--usage-only=1"]);
}

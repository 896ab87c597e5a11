//! The saved connection setting: a proxy URL or a direct connection, how it
//! is validated, and the one-line text form in which it is stored.
use vstd::prelude::*;

use crate::text::{
    chars_of, contains_white_space, equals_ignoring_ascii_case, has_prefix, trim, eq_ignore_ascii_case,
    has_white_space, is_white_space, starts_with, trim_end, trim_start, trimmed,
};

verus! {

/// The proxy that is used when nothing else was saved.
pub const DEFAULT_PROXY: &'static str = "http://127.0.0.1:10808";

pub const EMPTY_PROXY_MESSAGE: &'static str = "代理地址不能为空";

pub const SPACE_IN_PROXY_MESSAGE: &'static str = "代理地址中不能包含空格";

pub const PROXY_SCHEME_MESSAGE: &'static str = "代理地址必须以 http://、https://、socks4:// 或 socks5:// 开头";

pub const UNRECOGNIZED_CONFIG_MESSAGE: &'static str = "无法识别设置内容";

pub const HTTP_SCHEME: &'static str = "http://";

pub const HTTPS_SCHEME: &'static str = "https://";

pub const SOCKS4_SCHEME: &'static str = "socks4://";

pub const SOCKS5_SCHEME: &'static str = "socks5://";

pub const DIRECT_KEYWORD: &'static str = "direct";

pub const PROXY_KEY: &'static str = "proxy=";

pub const PROXY_SERVER_FLAG: &'static str = "--proxy-server=";

pub const DIRECT_LINE: &'static str = "direct\n";

pub const LINE_END: &'static str = "\n";

#[derive(Clone, Debug, Eq, PartialEq)]
pub enum ProxySetting {
    Proxy(String),
    Direct,
}

/// The mathematical form of a [`ProxySetting`].
pub enum ProxyView {
    Proxy(Seq<char>),
    Direct,
}

impl View for ProxySetting {
    type V = ProxyView;

    open spec fn view(&self) -> ProxyView {
        match self {
            ProxySetting::Proxy(url) => ProxyView::Proxy(url@),
            ProxySetting::Direct => ProxyView::Direct,
        }
    }
}

/// A result whose success is a setting and whose failure is a message, by their views.
pub open spec fn setting_result_view(r: Result<ProxySetting, String>) -> Result<ProxyView, Seq<char>> {
    match r {
        Ok(setting) => Ok(setting@),
        Err(message) => Err(message@),
    }
}

/// The URL schemes that a proxy address may use.
pub open spec fn has_proxy_scheme(url: Seq<char>) -> bool {
    ||| starts_with(url, HTTP_SCHEME@)
    ||| starts_with(url, HTTPS_SCHEME@)
    ||| starts_with(url, SOCKS4_SCHEME@)
    ||| starts_with(url, SOCKS5_SCHEME@)
}

/// What `ProxySetting::proxy` makes of an address: the address without
/// surrounding white space, if that is a non-empty string without white space
/// that begins with one of the four schemes; otherwise the reason why not.
pub open spec fn proxy_from(value: Seq<char>) -> Result<ProxyView, Seq<char>> {
    let url = trimmed(value);
    if url.len() == 0 {
        Err(EMPTY_PROXY_MESSAGE@)
    } else if has_white_space(url) {
        Err(SPACE_IN_PROXY_MESSAGE@)
    } else if !has_proxy_scheme(url) {
        Err(PROXY_SCHEME_MESSAGE@)
    } else {
        Ok(ProxyView::Proxy(url))
    }
}

/// What `parse` makes of the stored text.
pub open spec fn setting_from_text(content: Seq<char>) -> Result<ProxyView, Seq<char>> {
    let line = trimmed(content);
    if eq_ignore_ascii_case(line, DIRECT_KEYWORD@) {
        Ok(ProxyView::Direct)
    } else if starts_with(line, PROXY_KEY@) {
        proxy_from(line.skip(PROXY_KEY@.len() as int))
    } else {
        Err(UNRECOGNIZED_CONFIG_MESSAGE@)
    }
}

/// The stored text of a setting.
pub open spec fn setting_text(setting: ProxyView) -> Seq<char> {
    match setting {
        ProxyView::Proxy(url) => PROXY_KEY@ + url + LINE_END@,
        ProxyView::Direct => DIRECT_LINE@,
    }
}

/// The settings that validation accepts unchanged: a direct connection, or
/// a proxy URL that `ProxySetting::proxy` gives back as it is.
pub open spec fn is_valid_setting(setting: ProxyView) -> bool {
    match setting {
        ProxyView::Proxy(url) => url.len() > 0 && !has_white_space(url) && has_proxy_scheme(url),
        ProxyView::Direct => true,
    }
}

impl Default for ProxySetting {
    fn default() -> (r: Self)
        ensures
            r@ == ProxyView::Proxy(DEFAULT_PROXY@),
    {
        ProxySetting::Proxy(String::from_str(DEFAULT_PROXY))
    }
}

impl ProxySetting {
    /// Validates a proxy address; surrounding white space is dropped.
    pub fn proxy(value: &str) -> (r: Result<Self, String>)
        ensures
            setting_result_view(r) == proxy_from(value@),
    {
        let url = trim(value);
        let chars = chars_of(url.as_str());
        if chars.len() == 0 {
            return Err(String::from_str(EMPTY_PROXY_MESSAGE));
        }
        if contains_white_space(&chars) {
            return Err(String::from_str(SPACE_IN_PROXY_MESSAGE));
        }
        if !(has_prefix(&chars, HTTP_SCHEME) || has_prefix(&chars, HTTPS_SCHEME) || has_prefix(
            &chars,
            SOCKS4_SCHEME,
        ) || has_prefix(&chars, SOCKS5_SCHEME)) {
            return Err(String::from_str(PROXY_SCHEME_MESSAGE));
        }
        Ok(ProxySetting::Proxy(url))
    }

    /// The proxy URL, if a proxy is used.
    pub fn proxy_url(&self) -> (r: Option<&str>)
        ensures
            match self@ {
                ProxyView::Proxy(url) => r is Some && r->0@ == url,
                ProxyView::Direct => r is None,
            },
    {
        match self {
            ProxySetting::Proxy(url) => Some(url.as_str()),
            ProxySetting::Direct => None,
        }
    }

    /// The command-line argument that makes the ChatGPT app use the proxy, if any.
    pub fn launch_argument(&self) -> (r: Option<String>)
        ensures
            match self@ {
                ProxyView::Proxy(url) => r is Some && r->0@ == PROXY_SERVER_FLAG@ + url,
                ProxyView::Direct => r is None,
            },
    {
        match self.proxy_url() {
            Some(url) => {
                let mut argument = String::from_str(PROXY_SERVER_FLAG);
                argument.append(url);
                Some(argument)
            },
            None => None,
        }
    }
}

/// Reads the stored text of a setting: `direct` in any ASCII case, or
/// `proxy=` followed by a valid proxy address; surrounding white space is ignored.
pub fn parse(content: &str) -> (r: Result<ProxySetting, String>)
    ensures
        setting_result_view(r) == setting_from_text(content@),
{
    let line = trim(content);
    let chars = chars_of(line.as_str());
    if equals_ignoring_ascii_case(&chars, DIRECT_KEYWORD) {
        return Ok(ProxySetting::Direct);
    }
    if !has_prefix(&chars, PROXY_KEY) {
        return Err(String::from_str(UNRECOGNIZED_CONFIG_MESSAGE));
    }
    let key_length = chars_of(PROXY_KEY).len();
    let value = line.as_str().substring_char(key_length, chars.len());
    assert(value@ =~= line@.skip(PROXY_KEY@.len() as int));
    ProxySetting::proxy(value)
}

/// The saved setting from the config file's content, where `None` means
/// that there is no file yet: then the default setting holds.
pub fn stored_setting(content: Option<&str>) -> (r: Result<ProxySetting, String>)
    ensures
        setting_result_view(r) == match content {
            Some(text) => setting_from_text(text@),
            None => Ok(ProxyView::Proxy(DEFAULT_PROXY@)),
        },
{
    match content {
        Some(text) => parse(text),
        None => Ok(ProxySetting::default()),
    }
}

/// The setting a launch uses: the one given on the command line, if any,
/// else the saved one.
pub fn launch_setting(proxy_override: Option<ProxySetting>, saved: ProxySetting) -> (r: ProxySetting)
    ensures
        r@ == match proxy_override {
            Some(setting) => setting@,
            None => saved@,
        },
{
    match proxy_override {
        Some(setting) => setting,
        None => saved,
    }
}

/// The text under which a setting is stored: one line, `proxy=<url>` or `direct`.
pub fn config_content(setting: &ProxySetting) -> (r: String)
    ensures
        r@ == setting_text(setting@),
{
    match setting {
        ProxySetting::Proxy(url) => {
            let mut content = String::from_str(PROXY_KEY);
            content.append(url.as_str());
            content.append(LINE_END);
            content
        },
        ProxySetting::Direct => String::from_str(DIRECT_LINE),
    }
}

proof fn lemma_trim_start_keeps(s: Seq<char>)
    requires
        s.len() > 0,
        !is_white_space(s[0]),
    ensures
        trim_start(s) == s,
{
}

proof fn lemma_trim_end_drops_line_end(s: Seq<char>)
    requires
        s.len() > 0,
        !is_white_space(s.last()),
    ensures
        trim_end(s + LINE_END@) == s,
{
    reveal_strlit("\n");
    let t = s + LINE_END@;
    assert(LINE_END@ =~= seq!['\n']);
    assert(t.last() == '\n');
    assert(is_white_space(t.last()));
    assert(t.drop_last() =~= s);
    assert(trim_end(s) == s);
}

/// Every setting that validation produces is one that it accepts unchanged.
pub proof fn lemma_proxy_result_is_valid(value: Seq<char>)
    ensures
        proxy_from(value) matches Ok(setting) ==> is_valid_setting(setting),
{
}

/// A valid proxy address passes validation unchanged.
pub proof fn lemma_valid_proxy_is_fixed_point(url: Seq<char>)
    requires
        is_valid_setting(ProxyView::Proxy(url)),
    ensures
        proxy_from(url) == Ok::<ProxyView, Seq<char>>(ProxyView::Proxy(url)),
{
    assert(!is_white_space(url[0]));
    assert(!is_white_space(url.last()));
    lemma_trim_start_keeps(url);
    assert(trim_end(url) == url);
}

/// Saving a valid setting and reading it back gives the same setting.
pub proof fn lemma_setting_text_round_trip(setting: ProxyView)
    requires
        is_valid_setting(setting),
    ensures
        setting_from_text(setting_text(setting)) == Ok::<ProxyView, Seq<char>>(setting),
{
    reveal_strlit("proxy=");
    reveal_strlit("direct");
    reveal_strlit("direct\n");
    reveal_strlit("\n");
    match setting {
        ProxyView::Proxy(url) => {
            let text = PROXY_KEY@ + url + LINE_END@;
            let line = PROXY_KEY@ + url;
            assert(text =~= line + LINE_END@);
            assert(!is_white_space(url.last()));
            assert(line.last() == url.last());
            lemma_trim_start_keeps(text);
            assert(trim_start(text) == text);
            lemma_trim_end_drops_line_end(line);
            assert(trimmed(text) == line);
            assert(!eq_ignore_ascii_case(line, DIRECT_KEYWORD@));
            assert(line.take(6) =~= PROXY_KEY@);
            assert(line.skip(6) =~= url);
            lemma_valid_proxy_is_fixed_point(url);
        },
        ProxyView::Direct => {
            let text = DIRECT_LINE@;
            let line = DIRECT_KEYWORD@;
            assert(text =~= line + LINE_END@);
            lemma_trim_start_keeps(text);
            lemma_trim_end_drops_line_end(line);
            assert(trimmed(text) == line);
        },
    }
}

/// The default setting is valid.
pub proof fn lemma_default_is_valid()
    ensures
        is_valid_setting(ProxyView::Proxy(DEFAULT_PROXY@)),
{
    reveal_strlit("http://127.0.0.1:10808");
    reveal_strlit("http://");
    assert(DEFAULT_PROXY@.take(7) =~= HTTP_SCHEME@);
}

} // verus!

//! The launcher's own decisions: which command-line arguments it consumes,
//! how the two ways of locating ChatGPT combine, and when waiting for the
//! ChatGPT window ends.
use vstd::prelude::*;

use crate::config::{proxy_from, ProxySetting, ProxyView};
use crate::text::{chars_of, has_prefix, starts_with, text_equals};

verus! {

pub const SETTINGS_FLAG: &'static str = "--settings";

pub const NO_PROXY_FLAG: &'static str = "--no-proxy";

pub const PROXY_FLAG: &'static str = "--proxy=";

/// Show only the quota tray, without starting ChatGPT again.
pub const USAGE_ONLY_FLAG: &'static str = "--usage-only";

/// Show the quota as a small two-row window instead of the tray icon.
pub const USAGE_WIDGET_FLAG: &'static str = "--usage-widget";

pub const LINE_BREAK: &'static str = "\n";

/// Milliseconds after the start before the ChatGPT window is looked for.
pub const WINDOW_CHECK_DELAY_MS: u64 = 500;

/// Milliseconds after which waiting for the ChatGPT window gives up.
pub const LAUNCH_TIMEOUT_MS: u64 = 60000;

/// What the launcher takes from its own command line; every argument that
/// is not one of its own options is passed on to ChatGPT.
pub struct LaunchOptions<A> {
    pub show_settings: bool,
    pub proxy_override: Option<ProxySetting>,
    /// Only the quota display is shown; ChatGPT is not started.
    pub usage_only: bool,
    /// The quota is shown in the small window rather than the tray.
    pub usage_widget: bool,
    pub forwarded: Vec<A>,
}

/// The launcher's options as read so far: the positions of the arguments
/// to pass on stand for the arguments themselves.
pub struct OptionsView {
    pub show_settings: bool,
    pub proxy: Option<ProxyView>,
    pub usage_only: bool,
    pub usage_widget: bool,
    pub forwarded: Seq<int>,
}

/// The options read from the arguments' texts (`None` for an argument
/// that is not valid Unicode), or the message of the first invalid
/// `--proxy=` value.
pub open spec fn options_from(texts: Seq<Option<Seq<char>>>) -> Result<OptionsView, Seq<char>>
    decreases texts.len(),
{
    if texts.len() == 0 {
        Ok(
            OptionsView {
                show_settings: false,
                proxy: None,
                usage_only: false,
                usage_widget: false,
                forwarded: Seq::<int>::empty(),
            },
        )
    } else {
        let position = texts.len() - 1;
        match options_from(texts.drop_last()) {
            Err(message) => Err(message),
            Ok(o) => match texts.last() {
                None => Ok(OptionsView { forwarded: o.forwarded.push(position), ..o }),
                Some(text) => if text == SETTINGS_FLAG@ {
                    Ok(OptionsView { show_settings: true, ..o })
                } else if text == NO_PROXY_FLAG@ {
                    Ok(OptionsView { proxy: Some(ProxyView::Direct), ..o })
                } else if text == USAGE_ONLY_FLAG@ {
                    Ok(OptionsView { usage_only: true, ..o })
                } else if text == USAGE_WIDGET_FLAG@ {
                    Ok(OptionsView { usage_widget: true, ..o })
                } else if starts_with(text, PROXY_FLAG@) {
                    match proxy_from(text.skip(PROXY_FLAG@.len() as int)) {
                        Ok(setting) => Ok(OptionsView { proxy: Some(setting), ..o }),
                        Err(message) => Err(message),
                    }
                } else {
                    Ok(OptionsView { forwarded: o.forwarded.push(position), ..o })
                },
            },
        }
    }
}

/// What the launcher holds matches what was read, with each kept position
/// replaced by its argument.
pub open spec fn options_match<A>(
    options: LaunchOptions<A>,
    view: OptionsView,
    args: Seq<(A, Option<String>)>,
) -> bool {
    &&& options.show_settings == view.show_settings
    &&& option_view(options.proxy_override) == view.proxy
    &&& options.usage_only == view.usage_only
    &&& options.usage_widget == view.usage_widget
    &&& options.forwarded@ == view.forwarded.map_values(|i: int| args[i].0)
}

/// Whether some argument's text is exactly `flag`.
pub open spec fn given(texts: Seq<Option<Seq<char>>>, flag: Seq<char>) -> bool {
    exists|i: int| 0 <= i < texts.len() && texts[i] == Some(flag)
}

proof fn lemma_flags_differ()
    ensures
        SETTINGS_FLAG@ != NO_PROXY_FLAG@,
        SETTINGS_FLAG@ != USAGE_ONLY_FLAG@,
        SETTINGS_FLAG@ != USAGE_WIDGET_FLAG@,
        USAGE_ONLY_FLAG@ != NO_PROXY_FLAG@,
        USAGE_ONLY_FLAG@ != USAGE_WIDGET_FLAG@,
        USAGE_WIDGET_FLAG@ != NO_PROXY_FLAG@,
{
    reveal_strlit("--settings");
    reveal_strlit("--no-proxy");
    reveal_strlit("--usage-only");
    reveal_strlit("--usage-widget");
    assert(SETTINGS_FLAG@[2] != NO_PROXY_FLAG@[2]);
    assert(SETTINGS_FLAG@.len() != USAGE_ONLY_FLAG@.len());
    assert(SETTINGS_FLAG@.len() != USAGE_WIDGET_FLAG@.len());
    assert(USAGE_ONLY_FLAG@.len() != NO_PROXY_FLAG@.len());
    assert(USAGE_ONLY_FLAG@.len() != USAGE_WIDGET_FLAG@.len());
    assert(USAGE_WIDGET_FLAG@.len() != NO_PROXY_FLAG@.len());
}

/// Each of the launcher's switches is on exactly when an argument is that
/// switch, word for word: `--settings` alone opens the settings window,
/// `--usage-only` alone skips starting ChatGPT, and `--usage-widget` alone
/// picks the small quota window; no other argument turns any of them on.
pub proof fn lemma_switches_come_from_their_own_arguments(texts: Seq<Option<Seq<char>>>)
    requires
        options_from(texts) is Ok,
    ensures
        options_from(texts)->Ok_0.show_settings <==> given(texts, SETTINGS_FLAG@),
        options_from(texts)->Ok_0.usage_only <==> given(texts, USAGE_ONLY_FLAG@),
        options_from(texts)->Ok_0.usage_widget <==> given(texts, USAGE_WIDGET_FLAG@),
    decreases texts.len(),
{
    lemma_flags_differ();
    if texts.len() > 0 {
        let init = texts.drop_last();
        let last = texts.len() - 1;
        lemma_switches_come_from_their_own_arguments(init);
        assert forall|flag: Seq<char>| given(texts, flag) <==> (given(init, flag) || texts[last] == Some(flag)) by {
            if given(init, flag) {
                let i = choose|i: int| 0 <= i < init.len() && init[i] == Some(flag);
                assert(texts[i] == init[i]);
            }
            if given(texts, flag) {
                let i = choose|i: int| 0 <= i < texts.len() && texts[i] == Some(flag);
                if i < last {
                    assert(init[i] == texts[i]);
                }
            }
        }
        assert(given(texts, SETTINGS_FLAG@) <==> (given(init, SETTINGS_FLAG@) || texts[last] == Some(SETTINGS_FLAG@)));
        assert(given(texts, USAGE_ONLY_FLAG@) <==> (given(init, USAGE_ONLY_FLAG@) || texts[last] == Some(USAGE_ONLY_FLAG@)));
        assert(given(texts, USAGE_WIDGET_FLAG@) <==> (given(init, USAGE_WIDGET_FLAG@) || texts[last] == Some(USAGE_WIDGET_FLAG@)));
    } else {
        assert(!given(texts, SETTINGS_FLAG@));
        assert(!given(texts, USAGE_ONLY_FLAG@));
        assert(!given(texts, USAGE_WIDGET_FLAG@));
    }
}

/// Once some argument is refused, so are all the arguments.
proof fn lemma_options_error_persists(texts: Seq<Option<Seq<char>>>, k: int)
    requires
        0 <= k <= texts.len(),
        options_from(texts.take(k)) is Err,
    ensures
        options_from(texts) == options_from(texts.take(k)),
    decreases texts.len() - k,
{
    if k < texts.len() {
        let longer = texts.take(k + 1);
        assert(longer.drop_last() =~= texts.take(k));
        lemma_options_error_persists(texts, k + 1);
    } else {
        assert(texts.take(k) =~= texts);
    }
}

pub open spec fn argument_texts<A>(args: Seq<(A, Option<String>)>) -> Seq<Option<Seq<char>>> {
    Seq::new(
        args.len(),
        |i: int|
            match args[i].1 {
                Some(text) => Some(text@),
                None => None,
            },
    )
}

pub open spec fn option_view(setting: Option<ProxySetting>) -> Option<ProxyView> {
    match setting {
        Some(s) => Some(s@),
        None => None,
    }
}

/// Reads the launcher's options from its arguments, each given with its
/// text (`None` when it is not valid Unicode): `--settings`, `--no-proxy`,
/// `--proxy=<url>`, `--usage-only` and `--usage-widget` are the launcher's
/// own; later proxy options win; all other arguments are passed on, in
/// order. An invalid proxy URL is refused.
pub fn parse_launch_options<A>(args: Vec<(A, Option<String>)>) -> (r: Result<LaunchOptions<A>, String>)
    ensures
        match options_from(argument_texts(args@)) {
            Ok(view) => match r {
                Ok(options) => options_match(options, view, args@),
                Err(_) => false,
            },
            Err(message) => match r {
                Ok(_) => false,
                Err(m) => m@ == message,
            },
        },
        r matches Ok(options) ==> {
            &&& options.show_settings == given(argument_texts(args@), SETTINGS_FLAG@)
            &&& options.usage_only == given(argument_texts(args@), USAGE_ONLY_FLAG@)
            &&& options.usage_widget == given(argument_texts(args@), USAGE_WIDGET_FLAG@)
        },
{
    let ghost all = args@;
    let ghost texts = argument_texts(all);
    let mut remaining = args;
    let mut options = LaunchOptions {
        show_settings: false,
        proxy_override: None,
        usage_only: false,
        usage_widget: false,
        forwarded: Vec::new(),
    };
    let count = remaining.len();
    assert(texts.take(0) =~= Seq::<Option<Seq<char>>>::empty());
    assert(remaining@ =~= all.skip(0));
    assert(options.forwarded@ =~= Seq::<int>::empty().map_values(|i: int| all[i].0));
    for index in 0..count
        invariant
            all == args@,
            count == all.len(),
            texts == argument_texts(all),
            remaining@ == all.skip(index as int),
            options_from(texts.take(index as int)) is Ok,
            options_match(options, options_from(texts.take(index as int))->Ok_0, all),
    {
        let (argument, text) = remaining.remove(0);
        assert(remaining@ =~= all.skip(index + 1));
        let ghost prefix = texts.take(index + 1);
        assert(prefix.drop_last() =~= texts.take(index as int));
        assert(prefix.last() == texts[index as int]);
        assert(all[index as int].0 == argument);
        assert(all[index as int].1 == text);
        match text {
            None => {
                options.forwarded.push(argument);
                proof {
                    let next = options_from(prefix)->Ok_0.forwarded;
                    assert(options.forwarded@ =~= next.map_values(|i: int| all[i].0));
                }
            },
            Some(text) => {
                if text_equals(text.as_str(), SETTINGS_FLAG) {
                    options.show_settings = true;
                } else if text_equals(text.as_str(), NO_PROXY_FLAG) {
                    options.proxy_override = Some(ProxySetting::Direct);
                } else if text_equals(text.as_str(), USAGE_ONLY_FLAG) {
                    options.usage_only = true;
                } else if text_equals(text.as_str(), USAGE_WIDGET_FLAG) {
                    options.usage_widget = true;
                } else {
                    let chars = chars_of(text.as_str());
                    if has_prefix(&chars, PROXY_FLAG) {
                        let flag_length = chars_of(PROXY_FLAG).len();
                        let value = text.as_str().substring_char(flag_length, chars.len());
                        assert(value@ =~= text@.skip(PROXY_FLAG@.len() as int));
                        match ProxySetting::proxy(value) {
                            Ok(setting) => {
                                options.proxy_override = Some(setting);
                            },
                            Err(message) => {
                                proof {
                                    assert(prefix.last() == Some(text@));
                                    assert(options_from(prefix) == Err::<OptionsView, Seq<char>>(
                                        message@,
                                    ));
                                    lemma_options_error_persists(texts, index + 1);
                                }
                                return Err(message);
                            },
                        }
                    } else {
                        options.forwarded.push(argument);
                        proof {
                            let next = options_from(prefix)->Ok_0.forwarded;
                            assert(options.forwarded@ =~= next.map_values(|i: int| all[i].0));
                        }
                    }
                }
            },
        }
    }
    assert(texts.take(count as int) =~= texts);
    proof {
        lemma_switches_come_from_their_own_arguments(texts);
    }
    Ok(options)
}

/// Locates ChatGPT: the result of scanning `WindowsApps` when that found
/// it; otherwise the result of asking Windows for the package, where a
/// failure reports both errors, one per line.
pub fn find_chatgpt<P, F: FnOnce() -> Result<P, String>>(scanned: Result<P, String>, query_package: F) -> (r:
    Result<P, String>)
    requires
        scanned is Err ==> call_requires(query_package, ()),
    ensures
        scanned is Ok ==> r == scanned,
        scanned matches Err(scan_error) ==> exists|queried: Result<P, String>|
            {
                &&& call_ensures(query_package, (), queried)
                &&& match queried {
                    Ok(path) => r == Ok::<P, String>(path),
                    Err(query_error) => r is Err && r->Err_0@ == scan_error@ + LINE_BREAK@
                        + query_error@,
                }
            },
{
    match scanned {
        Ok(path) => Ok(path),
        Err(scan_error) => {
            let queried = query_package();
            match queried {
                Ok(path) => Ok(path),
                Err(query_error) => {
                    let mut message = scan_error;
                    message.append(LINE_BREAK);
                    message.append(query_error.as_str());
                    Err(message)
                },
            }
        },
    }
}

/// Where waiting for the ChatGPT window stands.
#[derive(Clone, Copy, Debug, PartialEq, Eq, Structural)]
pub enum LaunchWait {
    /// The ChatGPT window is showing: the launcher is done.
    Ready,
    /// The launched process ended with a failure.
    ChildFailed,
    /// The window did not appear in time.
    TimedOut,
    /// Keep waiting.
    Waiting,
}

/// Whether the ChatGPT window is looked for at this point of the wait.
pub fn window_check_due(elapsed_ms: u64) -> (r: bool)
    ensures
        r == (elapsed_ms >= WINDOW_CHECK_DELAY_MS),
{
    elapsed_ms >= WINDOW_CHECK_DELAY_MS
}

/// One step of waiting for ChatGPT: the window, once it may be looked for,
/// ends the wait; then a failed exit of the launched process; then the timeout.
pub fn launch_wait(elapsed_ms: u64, window_found: bool, child_failed: bool) -> (r: LaunchWait)
    ensures
        r == if elapsed_ms >= WINDOW_CHECK_DELAY_MS && window_found {
            LaunchWait::Ready
        } else if child_failed {
            LaunchWait::ChildFailed
        } else if elapsed_ms >= LAUNCH_TIMEOUT_MS {
            LaunchWait::TimedOut
        } else {
            LaunchWait::Waiting
        },
{
    if window_check_due(elapsed_ms) && window_found {
        LaunchWait::Ready
    } else if child_failed {
        LaunchWait::ChildFailed
    } else if elapsed_ms >= LAUNCH_TIMEOUT_MS {
        LaunchWait::TimedOut
    } else {
        LaunchWait::Waiting
    }
}

/// The smallest width and height of a window that counts as ChatGPT's
/// main window rather than a tool or splash window.
pub const MAIN_WINDOW_MIN_WIDTH: i32 = 240;

pub const MAIN_WINDOW_MIN_HEIGHT: i32 = 160;

/// Whether a visible, unowned window of this rectangle is large enough to
/// be an application's main window.
pub fn is_main_window_size(left: i32, top: i32, right: i32, bottom: i32) -> (r: bool)
    requires
        i32::MIN <= right - left <= i32::MAX,
        i32::MIN <= bottom - top <= i32::MAX,
    ensures
        r == (right - left >= MAIN_WINDOW_MIN_WIDTH && bottom - top >= MAIN_WINDOW_MIN_HEIGHT),
{
    !(right - left < MAIN_WINDOW_MIN_WIDTH || bottom - top < MAIN_WINDOW_MIN_HEIGHT)
}

} // verus!

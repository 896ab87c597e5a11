//! The quota reader's decisions: which rate-limit bucket counts as Codex,
//! which replies answer a request, when the shown data is stale, when the
//! background reader stops, and how quota windows are named.
use vstd::prelude::*;

use crate::decimal::{decimal_digits, decimal_string};
use crate::text::text_equals;

verus! {

pub const WEEK_MINUTES: u64 = 10080;

/// Seconds after the last successful read at which the data counts as stale.
pub const STALE_AFTER_SECS: u64 = 120;

pub const CODEX_LIMIT_ID: &'static str = "codex";

pub const MISSING_CODEX_MESSAGE: &'static str = "账户没有返回 Codex 额度";

pub const NO_QUOTA_DATA_MESSAGE: &'static str = "暂无可用的额度数据";

pub const REQUEST_REFUSED_MESSAGE: &'static str = "额度读取失败，请检查 Codex CLI 登录状态与代理";

pub const INVALID_REPLY_MESSAGE: &'static str = "Codex 返回了无效响应";

pub const WEEK_LABEL: &'static str = "1W";

pub const HOURS_SUFFIX: &'static str = "H";

pub const MINUTES_SUFFIX: &'static str = "m";

pub const WEEK_DESCRIPTION: &'static str = "每周额度";

pub const HOURS_DESCRIPTION: &'static str = " 小时额度";

pub const MINUTES_DESCRIPTION: &'static str = " 分钟额度";

pub const RESET_PREFIX: &'static str = "，约 ";

pub const RESET_HOURS: &'static str = " 小时 ";

pub const RESET_SUFFIX: &'static str = " 分钟后重置";

/// What the UI asks of the background reader.
#[derive(Clone, Copy, Debug, PartialEq, Eq, Structural)]
pub enum Action {
    Refresh,
    Stop,
}

/// Why the background reader woke up from its wait.
#[derive(Clone, Copy, Debug, PartialEq, Eq, Structural)]
pub enum Wakeup {
    /// An action arrived.
    Received(Action),
    /// The refresh interval passed.
    TimedOut,
    /// Every sender of actions is gone.
    Disconnected,
}

/// Whether the reader goes on after waking: it ends on `Stop`, when nobody
/// can send it actions any more, or when a `Stop` is among the actions that
/// queued up meanwhile (repeated refresh requests collapse into one read).
pub open spec fn keeps_running(wakeup: Wakeup, queued: Seq<Action>) -> bool {
    &&& wakeup != Wakeup::Received(Action::Stop)
    &&& wakeup != Wakeup::Disconnected
    &&& !queued.contains(Action::Stop)
}

pub fn worker_continues(wakeup: Wakeup, queued: &Vec<Action>) -> (r: bool)
    ensures
        r == keeps_running(wakeup, queued@),
        (wakeup == Wakeup::Received(Action::Refresh) || wakeup == Wakeup::TimedOut) && !queued@.contains(
            Action::Stop,
        ) ==> r,
{
    match wakeup {
        Wakeup::Received(Action::Stop) | Wakeup::Disconnected => {
            return false;
        },
        _ => {},
    }
    for i in 0..queued.len()
        invariant
            forall|k: int| 0 <= k < i ==> queued@[k] != Action::Stop,
    {
        if queued[i] == Action::Stop {
            assert(queued@.contains(Action::Stop));
            return false;
        }
    }
    true
}

/// Where the Codex quota is found in a rate-limit reply.
#[derive(Clone, Copy, Debug, PartialEq, Eq, Structural)]
pub enum Bucket {
    /// Under `rateLimitsByLimitId.codex`.
    ByLimitId,
    /// Under the single `rateLimits` bucket.
    Legacy,
    /// Nowhere: the reply holds no Codex quota.
    Missing,
}

/// A reply with a non-null `rateLimitsByLimitId` is authoritative: its
/// `codex` entry or nothing. Otherwise `rateLimits` counts, unless its
/// `limitId` names something other than `codex`.
pub open spec fn bucket_for(by_limit_id: Option<bool>, legacy: Option<Option<Seq<char>>>) -> Bucket {
    match by_limit_id {
        Some(has_codex) => if has_codex {
            Bucket::ByLimitId
        } else {
            Bucket::Missing
        },
        None => match legacy {
            None => Bucket::Missing,
            Some(None) => Bucket::Legacy,
            Some(Some(id)) => if id == CODEX_LIMIT_ID@ {
                Bucket::Legacy
            } else {
                Bucket::Missing
            },
        },
    }
}

/// Chooses the bucket: `by_limit_id` is `None` when `rateLimitsByLimitId` is
/// absent or null, else whether it has a `codex` entry; `legacy` is `None`
/// when `rateLimits` is absent, else its `limitId` when that is a string.
pub fn choose_bucket(by_limit_id: Option<bool>, legacy: Option<Option<String>>) -> (r: Bucket)
    ensures
        r == bucket_for(
            by_limit_id,
            match legacy {
                None => None,
                Some(None) => Some(None),
                Some(Some(id)) => Some(Some(id@)),
            },
        ),
        by_limit_id == Some(true) ==> r == Bucket::ByLimitId,
        by_limit_id == Some(false) ==> r == Bucket::Missing,
{
    match by_limit_id {
        Some(true) => Bucket::ByLimitId,
        Some(false) => Bucket::Missing,
        None => match legacy {
            None => Bucket::Missing,
            Some(None) => Bucket::Legacy,
            Some(Some(id)) => if text_equals(id.as_str(), CODEX_LIMIT_ID) {
                Bucket::Legacy
            } else {
                Bucket::Missing
            },
        },
    }
}

/// Whether a quota window's numbers are usable: a finite used percentage
/// over a window of at least one minute.
pub fn window_usable(used_is_finite: bool, minutes: u64) -> (r: bool)
    ensures
        r == (used_is_finite && minutes != 0),
{
    used_is_finite && minutes != 0
}

/// The primary and secondary quota windows of a reply, kept only when at
/// least one of them is there.
pub fn quota_windows<W>(primary: Option<W>, secondary: Option<W>) -> (r: Result<
    (Option<W>, Option<W>),
    String,
>)
    ensures
        r is Ok <==> (primary is Some || secondary is Some),
        r matches Ok(windows) ==> windows == (primary, secondary),
        r matches Err(message) ==> message@ == NO_QUOTA_DATA_MESSAGE@,
{
    if primary.is_none() && secondary.is_none() {
        Err(String::from_str(NO_QUOTA_DATA_MESSAGE))
    } else {
        Ok((primary, secondary))
    }
}

/// How a message read from the app-server relates to a pending request.
#[derive(Clone, Copy, Debug, PartialEq, Eq, Structural)]
pub enum Reply {
    /// Not the reply to this request; keep waiting.
    Unrelated,
    /// The server refused the request.
    Refused,
    /// The reply has no result.
    Invalid,
    /// The reply carries the result.
    Answered,
}

/// Classifies a message by its numeric `id` and whether it has an `error`
/// and a `result`: only the message whose id is the request's answers it,
/// and an error in it wins over a result.
pub fn classify_reply(request_id: u64, id: Option<u64>, has_error: bool, has_result: bool) -> (r: Reply)
    ensures
        r == if id != Some(request_id) {
            Reply::Unrelated
        } else if has_error {
            Reply::Refused
        } else if !has_result {
            Reply::Invalid
        } else {
            Reply::Answered
        },
{
    match id {
        Some(received) if received == request_id => if has_error {
            Reply::Refused
        } else if !has_result {
            Reply::Invalid
        } else {
            Reply::Answered
        },
        _ => Reply::Unrelated,
    }
}

/// Whether the shown quota is stale: after a failed read, before the first
/// successful one, or more than two minutes after the last one.
/// `since_update` is the time since then, in seconds and nanoseconds.
pub open spec fn stale_state(has_error: bool, since_update: Option<(u64, u32)>) -> bool {
    has_error || match since_update {
        None => true,
        Some((secs, nanos)) => secs > STALE_AFTER_SECS || (secs == STALE_AFTER_SECS && nanos > 0),
    }
}

pub fn is_stale(has_error: bool, since_update: Option<(u64, u32)>) -> (r: bool)
    ensures
        r == stale_state(has_error, since_update),
{
    if has_error {
        return true;
    }
    match since_update {
        None => true,
        Some((secs, nanos)) => secs > STALE_AFTER_SECS || (secs == STALE_AFTER_SECS && nanos > 0),
    }
}

/// Records one quota read in the shown state. A successful read replaces
/// both windows, stamps the read time and clears the error. A failed read
/// records its error and keeps the last windows and their read time, so the
/// last numbers stay shown, marked stale. Returns whether the connection to
/// the app-server is kept: a failed read drops it, to reconnect next time.
pub fn record_read<W, T>(
    windows: &mut [Option<W>; 2],
    updated: &mut Option<T>,
    error: &mut Option<String>,
    result: Result<[Option<W>; 2], String>,
    now: T,
) -> (keep_connection: bool)
    ensures
        keep_connection == result is Ok,
        match result {
            Ok(read) => {
                &&& *final(windows) == read
                &&& *final(updated) == Some(now)
                &&& *final(error) == None::<String>
            },
            Err(message) => {
                &&& *final(windows) == *old(windows)
                &&& *final(updated) == *old(updated)
                &&& *final(error) == Some(message)
            },
        },
        result is Err ==> forall|since_update: Option<(u64, u32)>|
            #[trigger] stale_state((*final(error)) is Some, since_update),
{
    match result {
        Ok(read) => {
            *windows = read;
            *updated = Some(now);
            *error = None;
            true
        },
        Err(message) => {
            *error = Some(message);
            false
        },
    }
}

/// The short name of a quota window: `1W` for a week, whole hours as `<n>H`,
/// anything else in minutes as `<n>m`.
pub open spec fn window_label_text(minutes: u64) -> Seq<char> {
    if minutes == WEEK_MINUTES {
        WEEK_LABEL@
    } else if minutes % 60 == 0 {
        decimal_digits((minutes / 60) as nat) + HOURS_SUFFIX@
    } else {
        decimal_digits(minutes as nat) + MINUTES_SUFFIX@
    }
}

/// The long name of a quota window, as in the details text.
pub open spec fn window_description_text(minutes: u64) -> Seq<char> {
    if minutes == WEEK_MINUTES {
        WEEK_DESCRIPTION@
    } else if minutes % 60 == 0 {
        decimal_digits((minutes / 60) as nat) + HOURS_DESCRIPTION@
    } else {
        decimal_digits(minutes as nat) + MINUTES_DESCRIPTION@
    }
}

pub fn window_label(minutes: u64) -> (r: String)
    ensures
        r@ == window_label_text(minutes),
{
    if minutes == WEEK_MINUTES {
        String::from_str(WEEK_LABEL)
    } else if minutes % 60 == 0 {
        let mut label = decimal_string(minutes / 60);
        label.append(HOURS_SUFFIX);
        label
    } else {
        let mut label = decimal_string(minutes);
        label.append(MINUTES_SUFFIX);
        label
    }
}

pub fn window_description(minutes: u64) -> (r: String)
    ensures
        r@ == window_description_text(minutes),
{
    if minutes == WEEK_MINUTES {
        String::from_str(WEEK_DESCRIPTION)
    } else if minutes % 60 == 0 {
        let mut text = decimal_string(minutes / 60);
        text.append(HOURS_DESCRIPTION);
        text
    } else {
        let mut text = decimal_string(minutes);
        text.append(MINUTES_DESCRIPTION);
        text
    }
}

/// The label of quota slot `slot` (0 short-term, 1 weekly): the window's own
/// label when it is known, else the usual one for that slot.
pub fn slot_label(slot: usize, minutes: Option<u64>) -> (r: String)
    ensures
        r@ == match minutes {
            Some(m) => window_label_text(m),
            None => if slot == 0 {
                window_label_text(300)
            } else {
                WEEK_LABEL@
            },
        },
{
    match minutes {
        Some(m) => window_label(m),
        None => if slot == 0 {
            window_label(300)
        } else {
            String::from_str(WEEK_LABEL)
        },
    }
}

/// Whole minutes until a reset at `resets_at` (Unix seconds), seen at
/// `now`, rounded up; zero once it has passed.
pub open spec fn minutes_until(resets_at: u64, now: u64) -> nat {
    if resets_at <= now {
        0
    } else {
        ((resets_at - now + 59) / 60) as nat
    }
}

pub fn reset_minutes(resets_at: u64, now: u64) -> (r: u64)
    ensures
        r == minutes_until(resets_at, now),
        resets_at <= now ==> r == 0,
        resets_at > now ==> r * 60 >= resets_at - now && (r - 1) * 60 < resets_at - now,
{
    let seconds = resets_at.saturating_sub(now);
    seconds / 60 + if seconds % 60 == 0 {
        0
    } else {
        1
    }
}

/// The note on when a quota window resets: `，约 <h> 小时 <m> 分钟后重置`.
pub fn reset_note(resets_at: u64, now: u64) -> (r: String)
    ensures
        r@ == RESET_PREFIX@ + decimal_digits(minutes_until(resets_at, now) / 60) + RESET_HOURS@
            + decimal_digits(minutes_until(resets_at, now) % 60) + RESET_SUFFIX@,
{
    let minutes = reset_minutes(resets_at, now);
    let mut note = String::from_str(RESET_PREFIX);
    let hours = decimal_string(minutes / 60);
    note.append(hours.as_str());
    note.append(RESET_HOURS);
    let rest = decimal_string(minutes % 60);
    note.append(rest.as_str());
    note.append(RESET_SUFFIX);
    note
}

/// The npm package platform and Rust target triple of the Codex CLI build
/// for a Rust target architecture (`std::env::consts::ARCH`): Arm64 for
/// `aarch64`, x64 otherwise.
pub fn cli_platform(target_arch: &str) -> (r: (&'static str, &'static str))
    ensures
        if target_arch@ == "aarch64"@ {
            r.0@ == "arm64"@ && r.1@ == "aarch64-pc-windows-msvc"@
        } else {
            r.0@ == "x64"@ && r.1@ == "x86_64-pc-windows-msvc"@
        },
{
    if text_equals(target_arch, "aarch64") {
        ("arm64", "aarch64-pc-windows-msvc")
    } else {
        ("x64", "x86_64-pc-windows-msvc")
    }
}

/// A `Stop` among the actions always ends the reader, whatever woke it.
pub proof fn lemma_stop_ends_reader(wakeup: Wakeup, queued: Seq<Action>, i: int)
    requires
        0 <= i < queued.len(),
        queued[i] == Action::Stop,
    ensures
        !keeps_running(wakeup, queued),
{
    assert(queued.contains(Action::Stop));
}

/// Only a stop ends the reader: a `Refresh` or the end of the refresh
/// interval keeps it reading, whatever else queued up, unless a `Stop` is
/// among the queued actions; a `Stop` or the loss of every sender ends it.
pub proof fn lemma_only_stop_ends_reader(queued: Seq<Action>)
    ensures
        !queued.contains(Action::Stop) ==> keeps_running(Wakeup::Received(Action::Refresh), queued),
        !queued.contains(Action::Stop) ==> keeps_running(Wakeup::TimedOut, queued),
        !keeps_running(Wakeup::Received(Action::Stop), queued),
        !keeps_running(Wakeup::Disconnected, queued),
        forall|wakeup: Wakeup| #[trigger]
            keeps_running(wakeup, queued) ==> !queued.contains(Action::Stop),
{
}

/// A reply with a non-null `rateLimitsByLimitId` decides alone: its `codex`
/// entry is the bucket when there is one, and nothing is otherwise; the
/// legacy `rateLimits` bucket and its `limitId` then play no part.
pub proof fn lemma_limit_id_buckets_decide(
    has_codex: bool,
    legacy: Option<Option<Seq<char>>>,
    other_legacy: Option<Option<Seq<char>>>,
)
    ensures
        bucket_for(Some(has_codex), legacy) == bucket_for(Some(has_codex), other_legacy),
        bucket_for(Some(true), legacy) == Bucket::ByLimitId,
        bucket_for(Some(false), legacy) == Bucket::Missing,
        bucket_for(None, legacy) != Bucket::ByLimitId,
{
}

/// The minutes until a reset are the time left rounded up to whole minutes,
/// however far off the reset is: they cover the time left, and one minute
/// fewer would not; a reset that has passed is zero minutes away. The note's
/// hours and minutes add up to that number of minutes.
pub proof fn lemma_reset_minutes_round_up(resets_at: u64, now: u64)
    ensures
        resets_at <= now ==> minutes_until(resets_at, now) == 0,
        resets_at > now ==> minutes_until(resets_at, now) * 60 >= resets_at - now,
        resets_at > now ==> (minutes_until(resets_at, now) - 1) * 60 < resets_at - now,
        minutes_until(resets_at, now) / 60 * 60 + minutes_until(resets_at, now) % 60 == minutes_until(
            resets_at,
            now,
        ),
        minutes_until(resets_at, now) % 60 < 60,
{
}

/// Shown data is stale exactly when a read failed, none succeeded yet, or
/// more than two minutes have passed since the last success, counted to the
/// nanosecond.
pub proof fn lemma_stale_after_two_minutes(has_error: bool, since_update: Option<(u64, u32)>)
    requires
        since_update matches Some((secs, nanos)) ==> nanos < 1_000_000_000,
    ensures
        has_error ==> stale_state(has_error, since_update),
        since_update is None ==> stale_state(has_error, since_update),
        !has_error ==> (since_update matches Some((secs, nanos)) ==> (stale_state(has_error, since_update)
            <==> secs * 1_000_000_000 + nanos > STALE_AFTER_SECS * 1_000_000_000)),
{
}

} // verus!

//! The proxy settings window's behaviour, apart from drawing it: its
//! initial state and what each button does to it.
use vstd::prelude::*;

use crate::config::{
    is_valid_setting, lemma_proxy_result_is_valid, proxy_from, setting_result_view, ProxySetting, ProxyView,
    DEFAULT_PROXY,
};

verus! {

pub const ID_SAVE: u16 = 1001;

pub const ID_CANCEL: u16 = 1002;

pub const ID_DIRECT: u16 = 1003;

pub const ID_DEFAULT: u16 = 1004;

/// A change that the window has to make after a command.
pub enum FormEffect {
    /// Enable or disable the address box.
    EnableAddress(bool),
    /// Redraw the "direct connection" check box.
    RedrawDirect,
    /// Put the keyboard focus in the address box.
    FocusAddress,
    /// Replace the text of the address box.
    SetAddress(String),
    /// Show that the address is invalid, with this message.
    ShowError(String),
    /// Close the window.
    Close,
}

/// The mathematical form of a [`FormEffect`].
pub enum EffectView {
    EnableAddress(bool),
    RedrawDirect,
    FocusAddress,
    SetAddress(Seq<char>),
    ShowError(Seq<char>),
    Close,
}

impl View for FormEffect {
    type V = EffectView;

    open spec fn view(&self) -> EffectView {
        match self {
            FormEffect::EnableAddress(enabled) => EffectView::EnableAddress(*enabled),
            FormEffect::RedrawDirect => EffectView::RedrawDirect,
            FormEffect::FocusAddress => EffectView::FocusAddress,
            FormEffect::SetAddress(text) => EffectView::SetAddress(text@),
            FormEffect::ShowError(message) => EffectView::ShowError(message@),
            FormEffect::Close => EffectView::Close,
        }
    }
}

/// The state of the settings window.
pub struct SettingsForm {
    /// Whether "direct connection" is checked.
    pub direct_checked: bool,
    /// The saved setting, once the user saved a valid one.
    pub result: Option<ProxySetting>,
    /// Whether the window is done.
    pub finished: bool,
}

/// The mathematical form of a [`SettingsForm`].
pub struct FormView {
    pub direct_checked: bool,
    pub result: Option<ProxyView>,
    pub finished: bool,
}

impl View for SettingsForm {
    type V = FormView;

    open spec fn view(&self) -> FormView {
        FormView {
            direct_checked: self.direct_checked,
            result: match self.result {
                Some(setting) => Some(setting@),
                None => None,
            },
            finished: self.finished,
        }
    }
}

/// What saving makes of the form: a direct connection when that is
/// checked, else the validated address or the reason it is refused.
pub open spec fn saved_setting(form: FormView, address: Seq<char>) -> Result<ProxyView, Seq<char>> {
    if form.direct_checked {
        Ok(ProxyView::Direct)
    } else {
        proxy_from(address)
    }
}

/// The form after a command, with `address` in the address box.
pub open spec fn after_command(form: FormView, id: u16, address: Seq<char>) -> FormView {
    if id == ID_DIRECT {
        FormView { direct_checked: !form.direct_checked, ..form }
    } else if id == ID_DEFAULT {
        FormView { direct_checked: false, ..form }
    } else if id == ID_CANCEL {
        FormView { finished: true, ..form }
    } else if id == ID_SAVE {
        match saved_setting(form, address) {
            Ok(setting) => FormView { result: Some(setting), finished: true, ..form },
            Err(_) => form,
        }
    } else {
        form
    }
}

/// The changes the window makes after a command.
pub open spec fn command_effects(form: FormView, id: u16, address: Seq<char>) -> Seq<EffectView> {
    if id == ID_DIRECT {
        if form.direct_checked {
            seq![EffectView::EnableAddress(true), EffectView::RedrawDirect, EffectView::FocusAddress]
        } else {
            seq![EffectView::EnableAddress(false), EffectView::RedrawDirect]
        }
    } else if id == ID_DEFAULT {
        seq![
            EffectView::SetAddress(DEFAULT_PROXY@),
            EffectView::RedrawDirect,
            EffectView::EnableAddress(true),
            EffectView::FocusAddress,
        ]
    } else if id == ID_CANCEL {
        seq![EffectView::Close]
    } else if id == ID_SAVE {
        match saved_setting(form, address) {
            Ok(_) => seq![EffectView::Close],
            Err(message) => seq![EffectView::ShowError(message), EffectView::FocusAddress],
        }
    } else {
        Seq::<EffectView>::empty()
    }
}

/// The address box's initial text: the current proxy, or the default one.
pub fn initial_address(current: &ProxySetting) -> (r: String)
    ensures
        r@ == match current@ {
            ProxyView::Proxy(url) => url,
            ProxyView::Direct => DEFAULT_PROXY@,
        },
{
    match current.proxy_url() {
        Some(url) => String::from_str(url),
        None => String::from_str(DEFAULT_PROXY),
    }
}

impl SettingsForm {
    pub fn new(current: &ProxySetting) -> (r: Self)
        ensures
            r@ == (FormView { direct_checked: current@ == ProxyView::Direct, result: None, finished: false }),
    {
        let direct_checked = match current {
            ProxySetting::Direct => true,
            ProxySetting::Proxy(_) => false,
        };
        SettingsForm { direct_checked, result: None, finished: false }
    }

    /// The window was closed by its close box: nothing is saved.
    pub fn close(&mut self)
        ensures
            final(self)@ == (FormView { finished: true, ..old(self)@ }),
    {
        self.finished = true;
    }

    /// Handles a button, with `address` the text in the address box.
    /// Toggling "direct connection" enables or disables the address box;
    /// "default" restores the default proxy; "cancel" closes without saving;
    /// "save" closes with a direct connection or a valid proxy address, and
    /// shows why an invalid address is refused. Other commands change nothing.
    pub fn handle_command(&mut self, id: u16, address: &str) -> (effects: Vec<FormEffect>)
        ensures
            final(self)@ == after_command(old(self)@, id, address@),
            effects@.map_values(|e: FormEffect| e@) == command_effects(old(self)@, id, address@),
    {
        let ghost before = self@;
        let mut effects: Vec<FormEffect> = Vec::new();
        if id == ID_DIRECT {
            self.direct_checked = !self.direct_checked;
            effects.push(FormEffect::EnableAddress(!self.direct_checked));
            effects.push(FormEffect::RedrawDirect);
            if !self.direct_checked {
                effects.push(FormEffect::FocusAddress);
            }
        } else if id == ID_DEFAULT {
            effects.push(FormEffect::SetAddress(String::from_str(DEFAULT_PROXY)));
            self.direct_checked = false;
            effects.push(FormEffect::RedrawDirect);
            effects.push(FormEffect::EnableAddress(true));
            effects.push(FormEffect::FocusAddress);
        } else if id == ID_CANCEL {
            self.finished = true;
            effects.push(FormEffect::Close);
        } else if id == ID_SAVE {
            let setting = if self.direct_checked {
                Ok(ProxySetting::Direct)
            } else {
                ProxySetting::proxy(address)
            };
            assert(setting_result_view(setting) == saved_setting(before, address@));
            match setting {
                Ok(setting) => {
                    self.result = Some(setting);
                    self.finished = true;
                    effects.push(FormEffect::Close);
                },
                Err(message) => {
                    effects.push(FormEffect::ShowError(message));
                    effects.push(FormEffect::FocusAddress);
                },
            }
        }
        assert(effects@.map_values(|e: FormEffect| e@) =~= command_effects(before, id, address@));
        effects
    }
}

/// Toggling "direct connection" twice gives back the form as it was.
pub proof fn lemma_direct_toggle_twice(form: FormView, first: Seq<char>, second: Seq<char>)
    ensures
        after_command(after_command(form, ID_DIRECT, first), ID_DIRECT, second) == form,
{
}

/// A form only ever holds a saved setting that validation accepts unchanged,
/// and only once it is finished.
pub proof fn lemma_saved_setting_is_valid(form: FormView, id: u16, address: Seq<char>)
    requires
        form.result matches Some(setting) ==> is_valid_setting(setting) && form.finished,
    ensures
        after_command(form, id, address).result matches Some(setting) ==> is_valid_setting(setting)
            && after_command(form, id, address).finished,
{
    lemma_proxy_result_is_valid(address);
}

/// Cancelling, toggling or restoring the default never changes what is saved.
pub proof fn lemma_only_save_saves(form: FormView, id: u16, address: Seq<char>)
    requires
        id != ID_SAVE,
    ensures
        after_command(form, id, address).result == form.result,
{
}

/// Integer division rounding toward zero, as Rust's `/` does, by a positive divisor.
pub open spec fn div_toward_zero(a: int, b: int) -> int
    recommends
        b > 0,
{
    if a >= 0 {
        a / b
    } else {
        -((-a) / b)
    }
}

/// A length given at 96 DPI scaled to `dpi`, rounded half up for
/// non-negative lengths, before it is cut to `i32`.
pub open spec fn scaled_length(value: i32, dpi: u32) -> int {
    div_toward_zero(value * dpi + 48, 96)
}

/// Scales a length given at 96 DPI to `dpi` (the result is cut to `i32`
/// as the `as` conversion does).
pub fn scale(value: i32, dpi: u32) -> (r: i32)
    ensures
        r == #[verifier::truncate] (scaled_length(value, dpi) as i32),
{
    assert(-0x8000_0000_0000_0000 < value * dpi < 0x7fff_ffff_0000_0000) by (nonlinear_arith)
        requires
            -0x8000_0000 <= value < 0x8000_0000,
            0 <= dpi < 0x1_0000_0000,
    ;
    let product: i64 = value as i64 * dpi as i64;
    let quotient: i64 = (product + 48) / 96;
    assert(quotient == scaled_length(value, dpi));
    #[verifier::truncate]
    (quotient as i32)
}

} // verus!

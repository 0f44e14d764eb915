//! The settings view: which preferences change with each message, when the
//! settings count as changed and not yet saved, and what the update check
//! leaves behind.

use vstd::prelude::*;

verus! {

/// How the theme is chosen.
#[derive(Clone, Copy, Debug, PartialEq, Eq, Structural)]
pub enum ThemePreference {
    Dark,
    Light,
    /// Follow the desktop's light or dark mode
    System,
    /// One of the COSMIC presets
    Cosmic,
}

/// A COSMIC theme preset.
#[derive(Clone, Copy, Debug, PartialEq, Eq, Structural)]
pub enum CosmicPreset {
    Dark,
    Light,
    PopOrange,
    WarmAmber,
    CoolBlue,
    Mint,
}

/// An available update.
#[derive(Debug)]
pub struct UpdateInfo {
    pub version: String,
    pub notes: String,
}

/// The preferences and their state; `C` is an update channel, `F` a kind
/// of forge that updates come from.
pub struct SettingsPanel<C, F> {
    pub auto_connect: bool,
    pub auto_start_services: bool,
    pub notify_new_versions: bool,
    pub update_channel: C,
    pub forge_type: F,
    pub auto_check_updates: bool,
    pub synapsix_dialog_routing: bool,
    pub theme: ThemePreference,
    pub cosmic_preset: CosmicPreset,
    /// Changed since last saved
    pub dirty: bool,
    pub checking_updates: bool,
    pub available_version: Option<String>,
    pub update_notes: Option<String>,
    pub available_update: Option<UpdateInfo>,
}

/// Messages of the settings view.
#[derive(Debug)]
pub enum SettingsMsg<C, F> {
    SaveSettings,
    ToggleAutoConnect,
    ToggleAutoStartServices,
    ToggleNotifications,
    SetUpdateChannel(C),
    SetForgeType(F),
    ToggleAutoCheckUpdates,
    CheckForUpdates,
    ToggleSynapsixDialogRouting,
    ThemePreferenceChanged(ThemePreference),
    CosmicPresetChanged(CosmicPreset),
    UpdateCheckResult(Result<Option<UpdateInfo>, String>),
}

/// What a settings message asks of the caller.
#[derive(Clone, Copy, Debug, PartialEq, Eq, Structural)]
pub enum SettingsAction {
    Nothing,
    /// Write the settings to disk
    Save,
    /// Look for an update
    CheckForUpdates,
    /// Apply the dialog routing to the desktop
    ApplyDialogRouting,
    /// Choose the theme again from the preferences
    DeriveTheme,
    /// Record that updates were checked now, then write the settings
    MarkCheckedAndSave,
}

impl<C, F> SettingsPanel<C, F> {
    /// Handles one settings message.
    pub fn handle(&mut self, msg: SettingsMsg<C, F>) -> (act: SettingsAction)
        ensures
            msg is SaveSettings ==> act == SettingsAction::Save
                && *final(self) == (SettingsPanel { dirty: false, ..*old(self) }),
            msg is ToggleAutoConnect ==> act == SettingsAction::Nothing
                && *final(self) == (SettingsPanel { auto_connect: !old(self).auto_connect, dirty: true, ..*old(self) }),
            msg is ToggleAutoStartServices ==> act == SettingsAction::Nothing && *final(self) == (SettingsPanel {
                auto_start_services: !old(self).auto_start_services,
                dirty: true,
                ..*old(self)
            }),
            msg is ToggleNotifications ==> act == SettingsAction::Nothing && *final(self) == (SettingsPanel {
                notify_new_versions: !old(self).notify_new_versions,
                dirty: true,
                ..*old(self)
            }),
            msg matches SettingsMsg::SetUpdateChannel(c) ==> act == SettingsAction::Nothing
                && *final(self) == (SettingsPanel { update_channel: c, dirty: true, ..*old(self) }),
            msg matches SettingsMsg::SetForgeType(f) ==> act == SettingsAction::Nothing
                && *final(self) == (SettingsPanel { forge_type: f, dirty: true, ..*old(self) }),
            msg is ToggleAutoCheckUpdates ==> act == SettingsAction::Nothing && *final(self) == (SettingsPanel {
                auto_check_updates: !old(self).auto_check_updates,
                dirty: true,
                ..*old(self)
            }),
            msg is CheckForUpdates ==> act == SettingsAction::CheckForUpdates
                && *final(self) == (SettingsPanel { checking_updates: true, ..*old(self) }),
            msg is ToggleSynapsixDialogRouting ==> act == SettingsAction::ApplyDialogRouting
                && *final(self) == (SettingsPanel {
                    synapsix_dialog_routing: !old(self).synapsix_dialog_routing,
                    dirty: true,
                    ..*old(self)
                }),
            msg matches SettingsMsg::ThemePreferenceChanged(t) ==> act == SettingsAction::DeriveTheme
                && *final(self) == (SettingsPanel { theme: t, dirty: true, ..*old(self) }),
            msg matches SettingsMsg::CosmicPresetChanged(p) ==> act == SettingsAction::DeriveTheme
                && *final(self) == (SettingsPanel {
                    cosmic_preset: p,
                    theme: ThemePreference::Cosmic,
                    dirty: true,
                    ..*old(self)
                }),
            msg matches SettingsMsg::UpdateCheckResult(r) ==> act == SettingsAction::MarkCheckedAndSave && (match r {
                Ok(Some(u)) => (final(self).available_version matches Some(v) && v@ == u.version@)
                    && (final(self).update_notes matches Some(n) && n@ == u.notes@)
                    && *final(self) == (SettingsPanel {
                        checking_updates: false,
                        available_version: final(self).available_version,
                        update_notes: final(self).update_notes,
                        available_update: Some(u),
                        ..*old(self)
                    }),
                Ok(None) => *final(self) == (SettingsPanel { checking_updates: false, available_update: None, ..*old(self) }),
                Err(_) => *final(self) == (SettingsPanel { checking_updates: false, ..*old(self) }),
            }),
    {
        match msg {
            SettingsMsg::SaveSettings => {
                self.dirty = false;
                SettingsAction::Save
            },
            SettingsMsg::ToggleAutoConnect => {
                self.auto_connect = !self.auto_connect;
                self.dirty = true;
                SettingsAction::Nothing
            },
            SettingsMsg::ToggleAutoStartServices => {
                self.auto_start_services = !self.auto_start_services;
                self.dirty = true;
                SettingsAction::Nothing
            },
            SettingsMsg::ToggleNotifications => {
                self.notify_new_versions = !self.notify_new_versions;
                self.dirty = true;
                SettingsAction::Nothing
            },
            SettingsMsg::SetUpdateChannel(c) => {
                self.update_channel = c;
                self.dirty = true;
                SettingsAction::Nothing
            },
            SettingsMsg::SetForgeType(f) => {
                self.forge_type = f;
                self.dirty = true;
                SettingsAction::Nothing
            },
            SettingsMsg::ToggleAutoCheckUpdates => {
                self.auto_check_updates = !self.auto_check_updates;
                self.dirty = true;
                SettingsAction::Nothing
            },
            SettingsMsg::CheckForUpdates => {
                self.checking_updates = true;
                SettingsAction::CheckForUpdates
            },
            SettingsMsg::ToggleSynapsixDialogRouting => {
                self.synapsix_dialog_routing = !self.synapsix_dialog_routing;
                self.dirty = true;
                SettingsAction::ApplyDialogRouting
            },
            SettingsMsg::ThemePreferenceChanged(t) => {
                self.theme = t;
                self.dirty = true;
                SettingsAction::DeriveTheme
            },
            SettingsMsg::CosmicPresetChanged(p) => {
                self.cosmic_preset = p;
                self.theme = ThemePreference::Cosmic;
                self.dirty = true;
                SettingsAction::DeriveTheme
            },
            SettingsMsg::UpdateCheckResult(r) => {
                self.checking_updates = false;
                match r {
                    Ok(Some(u)) => {
                        self.available_version = Some(u.version.clone());
                        self.update_notes = Some(u.notes.clone());
                        self.available_update = Some(u);
                    },
                    Ok(None) => {
                        self.available_update = None;
                    },
                    Err(_) => {},
                }
                SettingsAction::MarkCheckedAndSave
            },
        }
    }
}

} // verus!

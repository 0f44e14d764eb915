use continuum_studio_iced::settings::{
    CosmicPreset, SettingsAction, SettingsMsg, SettingsPanel, ThemePreference, UpdateInfo,
};

fn panel() -> SettingsPanel<u8, u8> {
    SettingsPanel {
        auto_connect: false,
        auto_start_services: false,
        notify_new_versions: true,
        update_channel: 0,
        forge_type: 0,
        auto_check_updates: false,
        synapsix_dialog_routing: false,
        theme: ThemePreference::System,
        cosmic_preset: CosmicPreset::Dark,
        dirty: false,
        checking_updates: false,
        available_version: None,
        update_notes: None,
        available_update: None,
    }
}

#[test]
fn changes_mark_settings_unsaved() {
    let mut p = panel();
    assert_eq!(p.handle(SettingsMsg::ToggleAutoConnect), SettingsAction::Nothing);
    assert!(p.auto_connect && p.dirty);
    assert_eq!(p.handle(SettingsMsg::SaveSettings), SettingsAction::Save);
    assert!(!p.dirty);
    p.handle(SettingsMsg::SetUpdateChannel(2));
    assert_eq!(p.update_channel, 2);
    assert!(p.dirty);
    p.handle(SettingsMsg::SaveSettings);
    assert_eq!(p.handle(SettingsMsg::ToggleSynapsixDialogRouting), SettingsAction::ApplyDialogRouting);
    assert!(p.synapsix_dialog_routing && p.dirty);
    assert_eq!(p.handle(SettingsMsg::CosmicPresetChanged(CosmicPreset::Mint)), SettingsAction::DeriveTheme);
    assert_eq!(p.theme, ThemePreference::Cosmic);
    assert_eq!(p.cosmic_preset, CosmicPreset::Mint);
    assert_eq!(p.handle(SettingsMsg::ThemePreferenceChanged(ThemePreference::Light)), SettingsAction::DeriveTheme);
    assert_eq!(p.theme, ThemePreference::Light);
}

#[test]
fn update_checks() {
    let mut p = panel();
    assert_eq!(p.handle(SettingsMsg::CheckForUpdates), SettingsAction::CheckForUpdates);
    assert!(p.checking_updates);
    assert!(!p.dirty);
    let r = p.handle(SettingsMsg::UpdateCheckResult(Ok(Some(UpdateInfo {
        version: "0.9.0".to_string(),
        notes: "fixes".to_string(),
    }))));
    assert_eq!(r, SettingsAction::MarkCheckedAndSave);
    assert!(!p.checking_updates);
    assert_eq!(p.available_version.as_deref(), Some("0.9.0"));
    assert_eq!(p.update_notes.as_deref(), Some("fixes"));
    assert!(p.available_update.is_some());
    p.handle(SettingsMsg::UpdateCheckResult(Err("offline".to_string())));
    assert!(p.available_update.is_some());
    p.handle(SettingsMsg::UpdateCheckResult(Ok(None)));
    assert!(p.available_update.is_none());
    assert_eq!(p.available_version.as_deref(), Some("0.9.0"));
}

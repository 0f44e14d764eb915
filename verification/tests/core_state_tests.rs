use continuum_studio_iced::core_state::{
    needs_full_refresh, CoreEvent, CoreFollowUp, CoreState, ProfileEntry, VersionEntry,
    VersionStatus, WorkspaceEntry,
};
use continuum_studio_iced::core_state::disk_usage_targets;
use continuum_studio_iced::launch::{
    data_dir_name, launch_args, pick_appimage, pick_workspace_launcher, service_to_start,
    DownloadedFile, StartableService,
};

type State = CoreState<(), &'static str, u32, &'static str, &'static str>;

fn version(name: &str, status: VersionStatus) -> VersionEntry<()> {
    VersionEntry { version: name.to_string(), status, installed: false, data: () }
}

fn ws(id: &str, name: &'static str) -> WorkspaceEntry<&'static str, u32> {
    WorkspaceEntry { id: id.to_string(), pinned: false, git_stats: 0, data: name }
}

fn status(s: &State, name: &str) -> VersionStatus {
    s.versions.iter().find(|v| v.version == name).unwrap().status
}

fn auth(s: &State, name: &str) -> Option<&'static str> {
    let mut found = None;
    for (k, v) in &s.auth_statuses {
        if k == name {
            found = Some(*v);
        }
    }
    found
}

#[test]
fn version_statuses() {
    let mut s: State = CoreState::new();
    let next = s.handle(CoreEvent::Versions(vec![
        version("2.1.0", VersionStatus::Available),
        version("2.2.0", VersionStatus::Available),
        version("2.3.0", VersionStatus::Available),
    ]));
    assert!(matches!(next, CoreFollowUp::GetAuthStatuses));
    s.handle(CoreEvent::InstalledVersions(vec!["2.1.0".to_string(), "9.9".to_string()]));
    assert_eq!(status(&s, "2.1.0"), VersionStatus::Installed);
    assert_eq!(status(&s, "2.2.0"), VersionStatus::Available);
    s.handle(CoreEvent::DownloadStarted("2.2.0".to_string()));
    assert_eq!(status(&s, "2.2.0"), VersionStatus::Downloading);
    s.handle(CoreEvent::DownloadCompleted("2.2.0".to_string()));
    assert_eq!(status(&s, "2.2.0"), VersionStatus::Installed);
    assert!(s.versions[1].installed);
    s.handle(CoreEvent::DownloadFailed("2.3.0".to_string()));
    assert_eq!(status(&s, "2.3.0"), VersionStatus::Available);
    s.handle(CoreEvent::VersionRunning("2.1.0".to_string()));
    assert_eq!(status(&s, "2.1.0"), VersionStatus::Running);
    assert!(!s.versions[0].installed);
}

#[test]
fn workspaces() {
    let mut s: State = CoreState::new();
    s.handle(CoreEvent::Workspaces(vec![ws("w1", "one"), ws("w2", "two")]));
    s.handle(CoreEvent::WorkspaceRegistered(ws("w3", "three")));
    assert_eq!(s.workspaces[0].id, "w3");
    s.handle(CoreEvent::WorkspaceRegistered(ws("w2", "two again")));
    assert_eq!(s.workspaces.len(), 3);
    assert_eq!(s.workspaces[2].data, "two again");
    s.handle(CoreEvent::WorkspacePinned { id: "w1".to_string(), pinned: true });
    assert!(s.workspaces[1].pinned);
    s.handle(CoreEvent::WorkspaceGitStats { id: "w2".to_string(), git_stats: 42 });
    assert_eq!(s.workspaces[2].git_stats, 42);
    s.handle(CoreEvent::WorkspacePinned { id: "nope".to_string(), pinned: true });
    assert_eq!(s.workspaces.iter().filter(|w| w.pinned).count(), 1);
}

#[test]
fn auth_statuses_and_profiles() {
    let mut s: State = CoreState::new();
    s.handle(CoreEvent::AuthStatus("2.1.0".to_string(), "signed-in"));
    s.handle(CoreEvent::AuthStatuses(vec![
        ("2.2.0".to_string(), "signed-out"),
        ("2.1.0".to_string(), "expired"),
        ("2.2.0".to_string(), "signed-in"),
    ]));
    assert_eq!(auth(&s, "2.1.0"), Some("expired"));
    assert_eq!(auth(&s, "2.2.0"), Some("signed-in"));
    assert_eq!(s.auth_statuses.len(), 2);
    assert_eq!(s.auth_source(), None);
    s.handle(CoreEvent::AuthExtracted(ProfileEntry { extracted_from: Some("2.1.0".to_string()), data: "me@example.com" }));
    assert_eq!(s.auth_profiles.len(), 1);
    assert_eq!(s.auth_profiles[0].data, "me@example.com");
    assert_eq!(s.auth_source().as_deref(), Some("2.1.0"));
    match s.handle(CoreEvent::AuthApplied { target: "2.2.0".to_string() }) {
        CoreFollowUp::GetAuthStatus { version } => assert_eq!(version, "2.2.0"),
        other => panic!("unexpected {:?}", other),
    }
    s.handle(CoreEvent::AuthProfiles(vec![]));
    assert!(s.auth_profiles.is_empty());
}

fn file(name: &str, appimage: bool, modified: Option<i128>) -> DownloadedFile {
    DownloadedFile { file_name: name.to_string(), is_appimage: appimage, modified }
}

#[test]
fn appimage_choice() {
    let files = vec![
        file("cursor-2.1.0-x86_64.AppImage", true, Some(5)),
        file("cursor-2.4.1-x86_64.AppImage", true, Some(9)),
        file("cursor-2.4.1.txt", false, Some(50)),
        file("cursor-2.3.0-x86_64.AppImage", true, Some(9)),
        file("other.AppImage", true, None),
    ];
    assert_eq!(pick_appimage("latest", &files), Some(3));
    assert_eq!(pick_appimage("2.4.1", &files), Some(1));
    assert_eq!(pick_appimage("2.4", &files), Some(1));
    assert_eq!(pick_appimage("3.0", &files), None);
    assert_eq!(pick_appimage("latest", &[file("a.txt", false, Some(1))]), None);
    assert_eq!(pick_appimage("latest", &[file("a", true, None), file("b", true, None)]), Some(1));
}

#[test]
fn launch_paths() {
    assert_eq!(data_dir_name("2.4.1"), ".cursor-2.4.1");
    let (a, b) = launch_args("/home/u/.cursor-2.4.1", "/home/u/.cursor-2.4.1/extensions");
    assert_eq!(a, "--user-data-dir=/home/u/.cursor-2.4.1");
    assert_eq!(b, "--extensions-dir=/home/u/.cursor-2.4.1/extensions");
}

#[test]
fn disk_usage_targets_pick_versions_on_disk() {
    let vs = vec![
        version("a", VersionStatus::Installed),
        version("b", VersionStatus::Running),
        version("c", VersionStatus::Available),
        version("d", VersionStatus::Downloading),
        version("e", VersionStatus::Running),
    ];
    let (on_disk, running) = disk_usage_targets(&vs);
    assert_eq!(on_disk, vec!["a", "b", "e"]);
    assert_eq!(running, vec!["b", "e"]);
}

#[test]
fn workspace_launcher_and_services() {
    let files = vec![
        file("notes-2.4.1.txt", false, Some(1)),
        file("cursor-2.4.1-x86_64.AppImage", true, Some(9)),
    ];
    assert_eq!(pick_workspace_launcher("2.4.1", &files), Some(0));
    assert_eq!(pick_workspace_launcher("latest", &files), Some(1));
    assert_eq!(pick_workspace_launcher("3.0", &files), None);
    assert_eq!(service_to_start("Continuum Core"), Some(StartableService::Core));
    assert_eq!(service_to_start("Dialog Daemon"), Some(StartableService::Dialog));
    assert_eq!(service_to_start("Core Dialog"), Some(StartableService::Core));
    assert_eq!(service_to_start("Other"), None);
}

#[test]
fn full_refresh_on_reconnect() {
    assert!(needs_full_refresh(false, true));
    assert!(!needs_full_refresh(true, true));
    assert!(!needs_full_refresh(false, false));
    assert!(!needs_full_refresh(true, false));
}

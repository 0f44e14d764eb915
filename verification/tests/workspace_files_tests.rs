use continuum_studio_iced::workspace_files::{
    sort_workspace_files, workspace_file_folders, workspace_folders, Json, WorkspaceFile,
};

fn obj(fields: Vec<(&str, Json)>) -> Json {
    Json::Object(fields.into_iter().map(|(k, v)| (k.to_string(), v)).collect())
}

fn s(t: &str) -> Json {
    Json::Str(t.to_string())
}

#[test]
fn folders_of_a_workspace_file() {
    let doc = obj(vec![
        ("folders", Json::Array(vec![
            obj(vec![("path", s("../api"))]),
            obj(vec![("name", s("no path"))]),
            obj(vec![("path", Json::Number("3".to_string()))]),
            s("not an object"),
            obj(vec![("name", s("web")), ("path", s("web"))]),
        ])),
        ("settings", obj(vec![])),
    ]);
    assert_eq!(workspace_folders(&doc), vec!["../api".to_string(), "web".to_string()]);
    assert!(workspace_folders(&obj(vec![("folders", s("x"))])).is_empty());
    assert!(workspace_folders(&Json::Array(vec![])).is_empty());
    assert!(workspace_folders(&Json::Null).is_empty());
    assert!(workspace_folders(&obj(vec![])).is_empty());
}

fn wf(name: &str, modified: Option<&str>) -> WorkspaceFile {
    WorkspaceFile {
        path: format!("/home/u/{}.code-workspace", name),
        name: name.to_string(),
        folders: vec![],
        modified: modified.map(|m| m.to_string()),
    }
}

#[test]
fn newest_files_first() {
    let files = vec![
        wf("a", Some("2024-01-02 10:00")),
        wf("b", None),
        wf("c", Some("2024-03-01 09:00")),
        wf("d", Some("2024-01-02 10:00")),
        wf("e", None),
    ];
    let names: Vec<String> = sort_workspace_files(files).into_iter().map(|f| f.name).collect();
    assert_eq!(names, vec!["c", "a", "d", "b", "e"]);
}

#[test]
fn order_matches_string_ordering() {
    let stamps = ["", "a", "ab", "b", "é", "z", "Z", "2024", "2024-01", "ü1", "a\u{10000}", "a\u{ffff}"];
    let mut files = Vec::new();
    let mut expected = Vec::new();
    for (i, t) in stamps.iter().enumerate() {
        for (j, extra) in [None, Some(*t)].iter().enumerate() {
            let name = format!("{}-{}", i, j);
            files.push(wf(&name, *extra));
            expected.push(wf(&name, *extra));
        }
    }
    expected.sort_by(|a, b| b.modified.cmp(&a.modified));
    let got: Vec<String> = sort_workspace_files(files).into_iter().map(|f| f.name).collect();
    let want: Vec<String> = expected.into_iter().map(|f| f.name).collect();
    assert_eq!(got, want);
}

#[test]
fn folders_from_workspace_file_text() {
    let text = r#"{ "folders": [ { "path": "../api" }, { "name": "x" }, { "path": "web", "name": "Web" } ],
                    "settings": { "editor.tabSize": 4 } }"#;
    assert_eq!(workspace_file_folders(text), vec!["../api".to_string(), "web".to_string()]);
    assert!(workspace_file_folders("not json").is_empty());
    assert!(workspace_file_folders(r#"{"folders": 3}"#).is_empty());
    assert!(workspace_file_folders("[]").is_empty());
}

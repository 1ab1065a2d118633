use velora::apps::{
    applications_from, applications_from_texts, discover_desktop_files, launch_paths,
    load_application, parse_application, resolve_application_directories, ApplicationEntry,
    AppsError, DesktopFile, DesktopSource, DirectoryScan, FoundFile,
};
use velora::protocol::Application;

fn strings(items: &[&str]) -> Vec<String> {
    items.iter().map(|item| (*item).to_owned()).collect()
}

#[test]
fn uses_freedesktop_defaults() {
    let directories = resolve_application_directories(Some("/home/tester"), None, None).unwrap();
    assert_eq!(
        directories,
        strings(&[
            "/home/tester/.local/share/applications",
            "/usr/local/share/applications",
            "/usr/share/applications",
        ])
    );
}

#[test]
fn respects_xdg_precedence_and_removes_duplicates() {
    let directories = resolve_application_directories(
        Some("/home/tester"),
        Some("/custom/user-data"),
        Some("/opt/share:/usr/share:/opt/share:relative-path"),
    )
    .unwrap();
    assert_eq!(
        directories,
        strings(&[
            "/custom/user-data/applications",
            "/opt/share/applications",
            "/usr/share/applications",
        ])
    );
}

#[test]
fn rejects_missing_user_data_location() {
    let result = resolve_application_directories(None, None, None);
    assert!(result.is_err());
    assert_eq!(result, Err(AppsError::MissingUserDataLocation));
}

#[test]
fn accepts_absolute_data_home_without_home() {
    let directories =
        resolve_application_directories(None, Some("/custom/user-data"), None).unwrap();
    assert_eq!(
        directories,
        strings(&[
            "/custom/user-data/applications",
            "/usr/local/share/applications",
            "/usr/share/applications",
        ])
    );
}

#[test]
fn relative_data_home_falls_back_to_home_and_empty_data_dirs_use_defaults() {
    let directories =
        resolve_application_directories(Some("/home/t"), Some("relative"), Some("")).unwrap();
    assert_eq!(
        directories,
        strings(&[
            "/home/t/.local/share/applications",
            "/usr/local/share/applications",
            "/usr/share/applications",
        ])
    );
}

fn found(components: &[&str], is_file: bool) -> FoundFile {
    FoundFile {
        components: components.iter().map(|c| c.as_bytes().to_vec()).collect(),
        is_file,
    }
}

#[test]
fn discovers_desktop_files_with_user_precedence() {
    let scans = vec![
        DirectoryScan {
            root: "/tmp/user/applications".to_owned(),
            files: vec![found(&["firefox.desktop"], true)],
        },
        DirectoryScan {
            root: "/tmp/system/applications".to_owned(),
            files: vec![
                found(&["firefox.desktop"], true),
                found(&["notes.txt"], true),
                found(&["tools", "editor.desktop"], true),
            ],
        },
    ];
    assert_eq!(
        discover_desktop_files(&scans),
        vec![
            DesktopFile {
                id: "firefox.desktop".to_owned(),
                path: "/tmp/user/applications/firefox.desktop".to_owned(),
            },
            DesktopFile {
                id: "tools-editor.desktop".to_owned(),
                path: "/tmp/system/applications/tools/editor.desktop".to_owned(),
            },
        ]
    );
}

#[test]
fn ignores_missing_application_directories() {
    let desktop_files = discover_desktop_files(&[DirectoryScan {
        root: "/tmp/missing".to_owned(),
        files: Vec::new(),
    }]);
    assert!(desktop_files.is_empty());
}

#[test]
fn skips_non_files_hidden_stems_and_non_utf8_names() {
    let scans = vec![DirectoryScan {
        root: "/apps/".to_owned(),
        files: vec![
            found(&[".desktop"], true),
            found(&["socket.desktop"], false),
            FoundFile {
                components: vec![vec![0xff, b'.', b'd', b'e', b's', b'k', b't', b'o', b'p']],
                is_file: true,
            },
            found(&["ok.desktop"], true),
        ],
    }];
    assert_eq!(
        discover_desktop_files(&scans),
        vec![DesktopFile {
            id: "ok.desktop".to_owned(),
            path: "/apps/ok.desktop".to_owned(),
        }]
    );
}

fn entry(name: &str, exec: &str) -> ApplicationEntry {
    ApplicationEntry {
        type_: Some("Application".to_owned()),
        hidden: false,
        no_display: false,
        name: Some(name.to_owned()),
        exec_value: Some(exec.to_owned()),
        icon: None,
        categories: None,
        terminal: false,
    }
}

fn source(id: &str, text: &str) -> DesktopSource {
    DesktopSource {
        id: id.to_owned(),
        path: format!("/usr/share/applications/{id}"),
        text: text.to_owned(),
    }
}

#[test]
fn parses_a_localized_application_model() {
    let files = vec![source(
        "editor.desktop",
        "[Desktop Entry]\nType=Application\nName=Editor\nName[fr]=Éditeur\nExec=editor --new-window %F\nIcon=editor\nCategories=Development;IDE;\nTerminal=false\n",
    )];

    let applications = applications_from_texts(&files, &["fr".to_owned()]);

    assert_eq!(
        applications,
        vec![Application {
            id: "editor.desktop".to_owned(),
            name: "Éditeur".to_owned(),
            exec_line: "editor --new-window %F".to_owned(),
            icon: Some("editor".to_owned()),
            categories: strings(&["Development", "IDE"]),
            terminal: false,
        }]
    );
}

#[test]
fn filters_entries_that_are_not_launchable_or_visible() {
    let files = [
        (
            "hidden.desktop",
            "[Desktop Entry]\nType=Application\nName=Hidden\nExec=hidden\nHidden=true\n",
        ),
        (
            "no-display.desktop",
            "[Desktop Entry]\nType=Application\nName=Internal\nExec=internal\nNoDisplay=true\n",
        ),
        (
            "link.desktop",
            "[Desktop Entry]\nType=Link\nName=Website\nURL=https://example.com\n",
        ),
        (
            "missing-exec.desktop",
            "[Desktop Entry]\nType=Application\nName=No Command\n",
        ),
    ]
    .into_iter()
    .map(|(id, contents)| source(id, contents))
    .collect::<Vec<_>>();

    let applications = applications_from_texts(&files, &[]);

    assert!(applications.is_empty());
}

#[test]
fn decoded_entries_are_filtered_like_their_fields() {
    let mut hidden = entry("Hidden", "hidden");
    hidden.hidden = true;
    let mut link = entry("Website", "");
    link.type_ = Some("Link".to_owned());
    link.exec_value = None;
    let entries = vec![
        ("hidden.desktop".to_owned(), hidden),
        ("link.desktop".to_owned(), link),
    ];
    assert!(applications_from(&entries).is_empty());
}

#[test]
fn loads_one_application_from_its_text_with_the_default_name() {
    let text = "[Desktop Entry]\nType=Application\nName=Editor\nName[fr]=Éditeur\nExec= editor \n";
    let application =
        load_application("editor.desktop", "/usr/share/applications/editor.desktop", text, &[])
            .unwrap();
    assert_eq!(application.name, "Editor");
    assert_eq!(application.exec_line, "editor");
    assert_eq!(application.categories, Vec::<String>::new());
}

#[test]
fn a_file_that_does_not_decode_is_no_application() {
    let text = "Type=Application\nName=Editor\nExec=editor\n";
    assert_eq!(
        load_application("editor.desktop", "/usr/share/applications/editor.desktop", text, &[]),
        None
    );
    let files = vec![
        source("broken.desktop", "Name=Broken\n"),
        source("ok.desktop", "[Desktop Entry]\nType=Application\nName=Ok\nExec=ok\n"),
    ];
    let ids: Vec<String> = applications_from_texts(&files, &[])
        .into_iter()
        .map(|application| application.id)
        .collect();
    assert_eq!(ids, strings(&["ok.desktop"]));
}

#[test]
fn applications_are_ordered_by_lowercase_name_then_id() {
    let entries = vec![
        ("b.desktop".to_owned(), entry("beta", "b")),
        ("z.desktop".to_owned(), entry("Alpha", "z")),
        ("a.desktop".to_owned(), entry("alpha", "a")),
    ];
    let ids: Vec<String> = applications_from(&entries)
        .into_iter()
        .map(|application| application.id)
        .collect();
    assert_eq!(ids, strings(&["a.desktop", "z.desktop", "b.desktop"]));
}

#[test]
fn blank_names_and_commands_are_not_applications() {
    assert_eq!(parse_application("x.desktop", &entry("  ", "run")), None);
    assert_eq!(parse_application("x.desktop", &entry("Name", " \t")), None);
    let parsed = parse_application("x.desktop", &entry("  Name  ", "  run  ")).unwrap();
    assert_eq!(parsed.name, "Name");
    assert_eq!(parsed.exec_line, "run");
}

#[test]
fn launch_paths_keep_only_desktop_files_that_became_applications() {
    let files = vec![
        DesktopFile {
            id: "a.desktop".to_owned(),
            path: "/apps/a.desktop".to_owned(),
        },
        DesktopFile {
            id: "hidden.desktop".to_owned(),
            path: "/apps/hidden.desktop".to_owned(),
        },
    ];
    let applications = applications_from(&[("a.desktop".to_owned(), entry("A", "a"))]);
    assert_eq!(
        launch_paths(&files, &applications),
        vec![("a.desktop".to_owned(), "/apps/a.desktop".to_owned())]
    );
}

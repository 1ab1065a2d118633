use velora::launch::{
    launch_fields_from_text,
    executable_candidates, is_executable_mode, is_shell_wrapper, launch_arguments, EntryFields,
    LaunchError, LaunchService, LAUNCH_COOLDOWN_NANOS, MAX_ACTIVE_PROCESSES,
};
use velora::protocol::Application;

fn application(id: &str, terminal: bool) -> Application {
    Application {
        id: id.to_owned(),
        name: id.to_owned(),
        exec_line: "run".to_owned(),
        icon: None,
        categories: Vec::new(),
        terminal,
    }
}

fn fields(exec: &str) -> EntryFields {
    EntryFields {
        type_: Some("Application".to_owned()),
        hidden: false,
        no_display: false,
        exec_value: Some(exec.to_owned()),
        try_exec: None,
    }
}

#[test]
fn targets_resolve_only_registered_graphical_applications() {
    let service = LaunchService::new(
        &[application("a.desktop", false), application("t.desktop", true)],
        &[
            ("a.desktop".to_owned(), "/apps/a.desktop".to_owned()),
            ("t.desktop".to_owned(), "/apps/t.desktop".to_owned()),
        ],
    );
    assert_eq!(service.target("a.desktop"), Ok("/apps/a.desktop".to_owned()));
    assert_eq!(service.target("t.desktop"), Err(LaunchError::TerminalRequired));
    assert_eq!(service.target("missing.desktop"), Err(LaunchError::UnknownApplication));
    assert_eq!(
        LaunchService::empty().target("a.desktop"),
        Err(LaunchError::UnknownApplication)
    );
}

#[test]
fn launches_are_rate_limited_per_entry_and_capped_overall() {
    let mut service = LaunchService::new(&[], &[]);
    assert_eq!(service.begin_launch("a.desktop", 1_000), Ok(()));
    assert_eq!(
        service.begin_launch("a.desktop", 1_000 + LAUNCH_COOLDOWN_NANOS - 1),
        Err(LaunchError::RateLimited)
    );
    assert_eq!(
        service.begin_launch("a.desktop", 1_000 + LAUNCH_COOLDOWN_NANOS),
        Ok(())
    );
    for index in 2..MAX_ACTIVE_PROCESSES {
        assert_eq!(service.begin_launch(&format!("{index}.desktop"), 5_000), Ok(()));
    }
    assert_eq!(
        service.begin_launch("late.desktop", 9_999_999_999),
        Err(LaunchError::ProcessLimitReached)
    );
    service.end_launch();
    assert_eq!(service.begin_launch("late.desktop", 9_999_999_999), Ok(()));
}

#[test]
fn launch_arguments_refuse_field_codes_and_shell_wrappers() {
    assert_eq!(
        launch_arguments(&fields("editor %F")),
        Err(LaunchError::UnsupportedFieldCode)
    );
    assert_eq!(
        launch_arguments(&fields("sh -c 'rm -rf ~'")),
        Err(LaunchError::ShellWrapperRejected)
    );
    assert_eq!(
        launch_arguments(&fields("editor --new-window")),
        Ok(vec!["editor".to_owned(), "--new-window".to_owned()])
    );
    let mut hidden = fields("editor");
    hidden.hidden = true;
    assert_eq!(launch_arguments(&hidden), Err(LaunchError::UnknownApplication));
}

#[test]
fn shell_wrappers_need_a_command_flag() {
    let args = |items: &[&str]| items.iter().map(|s| (*s).to_owned()).collect::<Vec<_>>();
    assert!(is_shell_wrapper(&args(&["/bin/bash", "-lc", "x"])));
    assert!(!is_shell_wrapper(&args(&["bash", "script.sh"])));
    assert!(!is_shell_wrapper(&args(&["editor", "-c"])));
    assert!(!is_shell_wrapper(&[]));
}

#[test]
fn executables_are_looked_up_on_the_path_unless_absolute() {
    assert_eq!(
        executable_candidates("/usr/bin/editor", Some("/bin")),
        vec!["/usr/bin/editor".to_owned()]
    );
    assert_eq!(
        executable_candidates("editor", Some("/usr/bin:/bin/")),
        vec!["/usr/bin/editor".to_owned(), "/bin/editor".to_owned()]
    );
    assert!(executable_candidates("editor", None).is_empty());
    assert!(is_executable_mode(true, 0o755));
    assert!(!is_executable_mode(true, 0o644));
    assert!(!is_executable_mode(false, 0o755));
}

#[test]
fn launch_errors_carry_stable_codes() {
    assert_eq!(LaunchError::RateLimited.code(), "launch_rate_limited");
    assert!(LaunchError::RateLimited.retryable());
    assert!(!LaunchError::ShellWrapperRejected.retryable());
    assert_eq!(
        LaunchError::ExecutableUnavailable("x".to_owned()).message(),
        "executable is not available: x"
    );
}

#[test]
fn launch_fields_are_decoded_from_the_registered_text() {
    let text = "[Desktop Entry]\nType=Application\nName=Editor\nExec=editor --new-window\nTryExec=editor\nNoDisplay=true\n";
    let fields =
        launch_fields_from_text("/usr/share/applications/editor.desktop", text, &[]).unwrap();
    assert_eq!(fields.type_.as_deref(), Some("Application"));
    assert!(!fields.hidden);
    assert!(fields.no_display);
    assert_eq!(fields.exec_value.as_deref(), Some("editor --new-window"));
    assert_eq!(fields.try_exec.as_deref(), Some("editor"));
}

#[test]
fn launch_fields_report_a_path_without_an_application_id() {
    let text = "[Desktop Entry]\nType=Application\nExec=editor\n";
    assert_eq!(
        launch_fields_from_text("/usr/share/applications/editor", text, &[]),
        Err("path does not contain a valid app ID".to_owned())
    );
}

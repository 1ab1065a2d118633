use serde_json::Value;
use velora::ipc::{
    application_page, focus_outcome, probed_socket_action, socket_path_action, ExistingPath, PageError,
    ProbeOutcome, SocketPathAction,
};
use velora::protocol::{
    Application, WindowFocusError, Response, MAX_APPLICATION_PAGE_SIZE, MAX_MESSAGE_BYTES, PROTOCOL_VERSION,
};

fn application_json(application: &Application) -> Value {
    let mut map = serde_json::Map::new();
    map.insert("id".to_owned(), Value::from(application.id.clone()));
    map.insert("name".to_owned(), Value::from(application.name.clone()));
    map.insert("exec".to_owned(), Value::from(application.exec_line.clone()));
    map.insert(
        "icon".to_owned(),
        match &application.icon {
            Some(icon) => Value::from(icon.clone()),
            None => Value::Null,
        },
    );
    map.insert(
        "categories".to_owned(),
        Value::Array(application.categories.iter().cloned().map(Value::from).collect()),
    );
    map.insert("terminal".to_owned(), Value::from(application.terminal));
    Value::Object(map)
}

/// The encoded length of an application page (field order does not change
/// the length).
fn encoded_len(response: &Response) -> Option<usize> {
    match response {
        Response::Applications {
            protocol_version,
            request_id,
            applications,
            next_offset,
            total,
        } => {
            let mut map = serde_json::Map::new();
            map.insert("type".to_owned(), Value::from("applications"));
            map.insert("protocol_version".to_owned(), Value::from(*protocol_version));
            map.insert("request_id".to_owned(), Value::from(*request_id));
            map.insert(
                "applications".to_owned(),
                Value::Array(applications.iter().map(application_json).collect()),
            );
            map.insert(
                "next_offset".to_owned(),
                match next_offset {
                    Some(offset) => Value::from(*offset),
                    None => Value::Null,
                },
            );
            map.insert("total".to_owned(), Value::from(*total));
            Some(serde_json::to_vec(&Value::Object(map)).unwrap().len())
        }
        _ => None,
    }
}

#[test]
fn application_pages_respect_the_encoded_transport_limit() {
    let applications = (1..=2)
        .map(|number| Application {
            id: format!("large-{number}.desktop"),
            name: format!("Large Application {number}"),
            exec_line: "x".repeat(40 * 1024),
            icon: None,
            categories: Vec::new(),
            terminal: false,
        })
        .collect::<Vec<_>>();

    let response = application_page(&applications, 1, 0, 2, encoded_len).unwrap();
    assert!(encoded_len(&response).unwrap() <= MAX_MESSAGE_BYTES);
    assert!(matches!(
        response,
        Response::Applications {
            applications,
            next_offset: Some(1),
            total: 2,
            ..
        } if applications.len() == 1
    ));
}

#[test]
fn rejects_an_application_that_cannot_fit_in_one_frame() {
    let applications = vec![Application {
        id: "oversized.desktop".to_owned(),
        name: "Oversized".to_owned(),
        exec_line: "x".repeat(MAX_MESSAGE_BYTES),
        icon: None,
        categories: Vec::new(),
        terminal: false,
    }];

    assert!(application_page(&applications, 1, 0, 1, encoded_len).is_err());
}

#[test]
fn paginates_a_500_entry_registry_with_bounded_frames() {
    let applications = (0..500)
        .map(|number| Application {
            id: format!("scale-{number}.desktop"),
            name: format!("Scale Application {number}"),
            exec_line: format!("/not/launched/scale-{number}"),
            icon: None,
            categories: vec!["Test".to_owned()],
            terminal: false,
        })
        .collect::<Vec<_>>();
    let mut offset = 0_u32;
    let mut received = 0_usize;

    loop {
        let response = application_page(
            &applications,
            700,
            offset,
            MAX_APPLICATION_PAGE_SIZE,
            encoded_len,
        )
        .unwrap();
        assert!(encoded_len(&response).unwrap() <= MAX_MESSAGE_BYTES);
        let Response::Applications {
            applications,
            next_offset,
            ..
        } = response
        else {
            unreachable!()
        };
        received += applications.len();
        let Some(next_offset) = next_offset else {
            break;
        };
        assert!(next_offset > offset);
        offset = next_offset;
    }

    assert_eq!(received, 500);
}

#[test]
fn oversized_first_application_names_itself() {
    let applications = vec![Application {
        id: "oversized.desktop".to_owned(),
        name: "Oversized".to_owned(),
        exec_line: "x".repeat(MAX_MESSAGE_BYTES),
        icon: None,
        categories: Vec::new(),
        terminal: false,
    }];
    assert_eq!(
        application_page(&applications, 1, 0, 1, encoded_len),
        Err(PageError::DoesNotFit("oversized.desktop".to_owned()))
    );
}

#[test]
fn an_offset_past_the_end_is_an_empty_final_page() {
    let applications = vec![Application {
        id: "a.desktop".to_owned(),
        name: "A".to_owned(),
        exec_line: "a".to_owned(),
        icon: None,
        categories: Vec::new(),
        terminal: false,
    }];
    let response = application_page(&applications, 9, 5, 10, encoded_len).unwrap();
    assert_eq!(
        response,
        Response::Applications {
            protocol_version: PROTOCOL_VERSION,
            request_id: 9,
            applications: Vec::new(),
            next_offset: None,
            total: 1,
        }
    );
}

#[test]
fn stale_sockets_are_removed_only_when_nobody_answers() {
    assert_eq!(socket_path_action(ExistingPath::Absent), SocketPathAction::Bind);
    assert_eq!(
        socket_path_action(ExistingPath::NotSocket),
        SocketPathAction::RefuseNonSocket
    );
    assert_eq!(socket_path_action(ExistingPath::Socket), SocketPathAction::Probe);
    assert_eq!(
        probed_socket_action(ProbeOutcome::Connected),
        SocketPathAction::AlreadyRunning
    );
    assert_eq!(
        probed_socket_action(ProbeOutcome::RefusedOrMissing),
        SocketPathAction::RemoveStale
    );
    assert_eq!(
        probed_socket_action(ProbeOutcome::OtherError),
        SocketPathAction::CannotVerify
    );
}

#[test]
fn an_accepted_focus_refreshes_the_session_once() {
    let (accepted, refresh) = focus_outcome(9, "window:00000000000000aa", true);
    assert!(refresh);
    assert_eq!(
        accepted,
        Response::FocusAccepted {
            protocol_version: PROTOCOL_VERSION,
            request_id: 9,
            window_handle: "window:00000000000000aa".to_owned(),
        }
    );
    let (refused, refresh) = focus_outcome(9, "window:00000000000000aa", false);
    assert!(!refresh);
    assert_eq!(
        refused,
        Response::FocusRejected {
            protocol_version: PROTOCOL_VERSION,
            request_id: 9,
            window_handle: "window:00000000000000aa".to_owned(),
            code: WindowFocusError::FocusFailed,
        }
    );
}

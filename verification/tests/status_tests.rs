use fasttq::status::TaskStatus;

const ALL: [(TaskStatus, &str); 12] = [
    (TaskStatus::Pending, "pending"),
    (TaskStatus::Accepted, "accepted"),
    (TaskStatus::Queued, "queued"),
    (TaskStatus::Running, "running"),
    (TaskStatus::Paused, "paused"),
    (TaskStatus::Retrying, "retrying"),
    (TaskStatus::Completed, "completed"),
    (TaskStatus::Failed, "failed"),
    (TaskStatus::Cancelled, "cancelled"),
    (TaskStatus::Timeout, "timeout"),
    (TaskStatus::Rejected, "rejected"),
    (TaskStatus::Blocked, "blocked"),
];

#[test]
fn status_reads_its_own_name() {
    for (status, name) in ALL {
        assert_eq!(status.as_str(), name);
        assert_eq!(status.to_string(), name);
        assert_eq!(TaskStatus::try_from(name), Ok(status));
        assert_eq!(TaskStatus::parse(name), Ok(status));
        assert_eq!(TaskStatus::from(name.to_string()), status);
    }
}

#[test]
fn status_rejects_unknown_text() {
    assert_eq!(
        TaskStatus::try_from("bogus"),
        Err("Invalid task status: bogus".to_string())
    );
    assert_eq!(
        TaskStatus::try_from(""),
        Err("Invalid task status: ".to_string())
    );
    assert_eq!(
        TaskStatus::parse("invalid_status"),
        Err("Invalid task status: invalid_status".to_string())
    );
}

#[test]
fn status_exact_reading_minds_case() {
    assert_eq!(
        TaskStatus::try_from("Running"),
        Err("Invalid task status: Running".to_string())
    );
}

#[test]
fn status_parse_ignores_case() {
    assert_eq!(TaskStatus::parse("RUNNING"), Ok(TaskStatus::Running));
    assert_eq!(TaskStatus::parse("Completed"), Ok(TaskStatus::Completed));
    assert_eq!(TaskStatus::from("Queued".to_string()), TaskStatus::Queued);
    assert_eq!(
        TaskStatus::parse("BOGUS"),
        Err("Invalid task status: bogus".to_string())
    );
}

#[test]
fn status_terminal_states() {
    for (status, _) in ALL {
        let expected = matches!(
            status,
            TaskStatus::Completed | TaskStatus::Failed | TaskStatus::Cancelled
        );
        assert_eq!(status.is_terminal(), expected);
    }
}

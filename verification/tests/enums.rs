use lava_api::device;
use lava_api::job::{Health, JobOrdering, State};
use lava_api::joblog::JobLogLevel;
use lava_api::mock;
use lava_api::test::{ErrorType, PassFail};
use lava_api::text::LabelError;
use lava_api::worker;

#[test]
fn job_test_display() {
    assert_eq!(State::Submitted.to_string(), "Submitted");
    assert_eq!(State::Scheduling.to_string(), "Scheduling");
    assert_eq!(State::Scheduled.to_string(), "Scheduled");
    assert_eq!(State::Running.to_string(), "Running");
    assert_eq!(State::Canceling.to_string(), "Canceling");
    assert_eq!(State::Finished.to_string(), "Finished");

    assert_eq!(Health::Unknown.to_string(), "Unknown");
    assert_eq!(Health::Complete.to_string(), "Complete");
    assert_eq!(Health::Incomplete.to_string(), "Incomplete");
    assert_eq!(Health::Canceled.to_string(), "Canceled");
}

#[test]
fn job_test_from_str() {
    assert_eq!(Ok(State::Submitted), State::from_str("Submitted"));
    assert_eq!(Ok(State::Scheduling), State::from_str("Scheduling"));
    assert_eq!(Ok(State::Scheduled), State::from_str("Scheduled"));
    assert_eq!(Ok(State::Running), State::from_str("Running"));
    assert_eq!(Ok(State::Canceling), State::from_str("Canceling"));
    assert_eq!(Ok(State::Finished), State::from_str("Finished"));
    assert_eq!(Err(LabelError::VariantNotFound), State::from_str("womble"));

    assert_eq!(Ok(Health::Unknown), Health::from_str("Unknown"));
    assert_eq!(Ok(Health::Complete), Health::from_str("Complete"));
    assert_eq!(Ok(Health::Incomplete), Health::from_str("Incomplete"));
    assert_eq!(Ok(Health::Canceled), Health::from_str("Canceled"));
    assert_eq!(Err(LabelError::VariantNotFound), Health::from_str(""));
}

#[test]
fn job_labels_are_case_sensitive() {
    assert_eq!(Err(LabelError::VariantNotFound), State::from_str("running"));
    assert_eq!(Err(LabelError::VariantNotFound), State::from_str("Running "));
    assert_eq!(Err(LabelError::VariantNotFound), Health::from_str("unknown"));
}

#[test]
fn job_ordering_names_the_server_fields() {
    assert_eq!(JobOrdering::Id.to_string(), "id");
    assert_eq!(JobOrdering::StartTime.to_string(), "start_time");
    assert_eq!(JobOrdering::EndTime.to_string(), "end_time");
    assert_eq!(JobOrdering::SubmitTime.to_string(), "submit_time");
}

#[test]
fn device_health_round_trips() {
    let all = [
        (device::Health::Unknown, "Unknown"),
        (device::Health::Maintenance, "Maintenance"),
        (device::Health::Good, "Good"),
        (device::Health::Bad, "Bad"),
        (device::Health::Looping, "Looping"),
        (device::Health::Retired, "Retired"),
    ];
    for (health, text) in all {
        assert_eq!(health.to_string(), text);
        assert_eq!(device::Health::from_str(text), Ok(health));
        assert_eq!(device::Health::try_from(text), Ok(health));
    }
    assert_eq!(
        device::Health::try_from("good"),
        Err(device::TryFromHealthError {})
    );
    assert_eq!(
        device::Health::from_str("Broken"),
        Err(LabelError::VariantNotFound)
    );
}

#[test]
fn worker_enums_round_trip() {
    let healths = [
        (worker::Health::Active, "Active"),
        (worker::Health::Maintenance, "Maintenance"),
        (worker::Health::Retired, "Retired"),
    ];
    for (health, text) in healths {
        assert_eq!(health.to_string(), text);
        assert_eq!(worker::Health::from_str(text), Ok(health));
    }
    let states = [
        (worker::State::Online, "Online"),
        (worker::State::Offline, "Offline"),
    ];
    for (state, text) in states {
        assert_eq!(state.to_string(), text);
        assert_eq!(worker::State::from_str(text), Ok(state));
    }
    assert_eq!(
        worker::State::from_str("online"),
        Err(LabelError::VariantNotFound)
    );
}

#[test]
fn test_results_use_snake_case() {
    let all = [
        (PassFail::Pass, "pass"),
        (PassFail::Fail, "fail"),
        (PassFail::Skip, "skip"),
        (PassFail::Unknown, "unknown"),
    ];
    for (verdict, text) in all {
        assert_eq!(verdict.to_string(), text);
        assert_eq!(PassFail::from_str(text), Ok(verdict));
    }
    assert_eq!(PassFail::from_str("Pass"), Err(LabelError::VariantNotFound));
}

#[test]
fn error_types_keep_their_odd_spellings() {
    let all = [
        (ErrorType::NoError, "None"),
        (ErrorType::Infrastructure, "Infrastructure"),
        (ErrorType::Configuration, "Configuration"),
        (ErrorType::Bug, "Bug"),
        (ErrorType::Canceled, "Canceled"),
        (ErrorType::Job, "Job"),
        (ErrorType::Test, "Test"),
        (ErrorType::LavaTimeout, "LAVATimeout"),
        (ErrorType::MultinodeTimeout, "MultinodeTimeout"),
        (ErrorType::ObjectNotPersisted, "ObjectNotPersisted"),
        (
            ErrorType::UnexistingPermissionCodename,
            "Unexisting permission codename.",
        ),
    ];
    for (kind, text) in all {
        assert_eq!(kind.to_string(), text);
        assert_eq!(ErrorType::from_str(text), Ok(kind));
    }
    assert_eq!(
        ErrorType::from_str("LavaTimeout"),
        Err(LabelError::VariantNotFound)
    );
    assert_eq!(
        ErrorType::from_str("Unexisting permission codename"),
        Err(LabelError::VariantNotFound)
    );
}

#[test]
fn log_levels_are_lower_case() {
    let all = [
        (JobLogLevel::Debug, "debug"),
        (JobLogLevel::Info, "info"),
        (JobLogLevel::Warning, "warning"),
        (JobLogLevel::Error, "error"),
        (JobLogLevel::Results, "results"),
        (JobLogLevel::Target, "target"),
        (JobLogLevel::Input, "input"),
        (JobLogLevel::Feedback, "feedback"),
        (JobLogLevel::Exception, "exception"),
    ];
    for (level, text) in all {
        assert_eq!(level.to_string(), text);
        assert_eq!(JobLogLevel::from_str(text), Ok(level));
    }
    assert_eq!(
        JobLogLevel::from_str("Debug"),
        Err(LabelError::VariantNotFound)
    );
}

#[test]
fn mock_enums_round_trip() {
    for (health, text) in [
        (mock::DeviceHealth::Unknown, "Unknown"),
        (mock::DeviceHealth::Maintenance, "Maintenance"),
        (mock::DeviceHealth::Good, "Good"),
        (mock::DeviceHealth::Bad, "Bad"),
        (mock::DeviceHealth::Looping, "Looping"),
        (mock::DeviceHealth::Retired, "Retired"),
    ] {
        assert_eq!(health.to_string(), text);
        assert_eq!(mock::DeviceHealth::from_str(text), Ok(health));
    }
    for (state, text) in [
        (mock::DeviceState::Idle, "Idle"),
        (mock::DeviceState::Reserved, "Reserved"),
        (mock::DeviceState::Running, "Running"),
    ] {
        assert_eq!(state.to_string(), text);
        assert_eq!(mock::DeviceState::from_str(text), Ok(state));
    }
    for (unit, text) in [
        (mock::HealthDenominator::Hours, "hours"),
        (mock::HealthDenominator::Jobs, "jobs"),
    ] {
        assert_eq!(unit.to_string(), text);
        assert_eq!(mock::HealthDenominator::from_str(text), Ok(unit));
    }
    for (health, text) in [
        (mock::JobHealth::Unknown, "Unknown"),
        (mock::JobHealth::Complete, "Complete"),
        (mock::JobHealth::Incomplete, "Incomplete"),
        (mock::JobHealth::Canceled, "Canceled"),
    ] {
        assert_eq!(health.to_string(), text);
        assert_eq!(mock::JobHealth::from_str(text), Ok(health));
    }
    for (state, text) in [
        (mock::JobState::Submitted, "Submitted"),
        (mock::JobState::Scheduling, "Scheduling"),
        (mock::JobState::Scheduled, "Scheduled"),
        (mock::JobState::Running, "Running"),
        (mock::JobState::Canceling, "Canceling"),
        (mock::JobState::Finished, "Finished"),
    ] {
        assert_eq!(state.to_string(), text);
        assert_eq!(mock::JobState::from_str(text), Ok(state));
    }
    for (health, text) in [
        (mock::WorkerHealth::Active, "Active"),
        (mock::WorkerHealth::Maintenance, "Maintenance"),
        (mock::WorkerHealth::Retired, "Retired"),
    ] {
        assert_eq!(health.to_string(), text);
        assert_eq!(mock::WorkerHealth::from_str(text), Ok(health));
    }
    for (state, text) in [
        (mock::WorkerState::Online, "Online"),
        (mock::WorkerState::Offline, "Offline"),
    ] {
        assert_eq!(state.to_string(), text);
        assert_eq!(mock::WorkerState::from_str(text), Ok(state));
    }
    for (verdict, text) in [
        (mock::PassFail::Fail, "fail"),
        (mock::PassFail::Pass, "pass"),
        (mock::PassFail::Skip, "skip"),
        (mock::PassFail::Unknown, "unknown"),
    ] {
        assert_eq!(verdict.to_string(), text);
        assert_eq!(mock::PassFail::from_str(text), Ok(verdict));
    }
    assert_eq!(
        mock::HealthDenominator::from_str("Hours"),
        Err(LabelError::VariantNotFound)
    );
}

#[test]
fn mock_defaults() {
    let limits = mock::PaginationLimits::new();
    assert_eq!(limits.aliases, None);
    assert_eq!(limits.test_cases, None);
    assert_eq!(limits.test_suites, None);
    assert_eq!(limits.jobs, None);
    assert_eq!(limits.device_types, None);
    assert_eq!(limits.devices, None);
    assert_eq!(limits.tags, None);
    assert_eq!(limits.workers, None);
    assert_eq!(limits, mock::PaginationLimits::default());

    let population = mock::PopulationParams::new();
    assert_eq!(population.aliases, 10);
    assert_eq!(population.architectures, 5);
    assert_eq!(population.bit_widths, 2);
    assert_eq!(population.cores, 3);
    assert_eq!(population.devices, 50);
    assert_eq!(population.device_types, 10);
    assert_eq!(population.groups, 3);
    assert_eq!(population.jobs, 200);
    assert_eq!(population.processor_families, 3);
    assert_eq!(population.tags, 5);
    assert_eq!(population.test_cases, 5);
    assert_eq!(population.test_sets, 2);
    assert_eq!(population.test_suites, 3);
    assert_eq!(population.users, 5);
    assert_eq!(population.workers, 10);
    assert_eq!(population, mock::PopulationParams::default());
}

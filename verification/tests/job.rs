use lava_api::job::{Health, Job, JobOrdering, JobsBuilder, LavaJob, State, transform_job};
use lava_api::lava::{Lava, Step};
use lava_api::queryset::QuerySetMember;
use lava_api::tag::Tag;
use lava_api::timestamp::Timestamp;

fn lava() -> Lava {
    Lava::new("http://lava.example", None).expect("failed to make lava")
}

fn pairs(builder: &JobsBuilder<'_>) -> Vec<(String, String)> {
    builder.query_pairs().expect("no query pairs")
}

fn pair(key: &str, value: &str) -> (String, String) {
    (String::from(key), String::from(value))
}

fn address(jobs: Option<lava_api::job::Jobs>, lava: &Lava) -> String {
    let mut jobs = jobs.expect("no query");
    assert_eq!(jobs.reported_items(), None);
    match jobs.step(lava) {
        Step::Fetch(address) => address,
        other => panic!("unexpected step {:?}", other),
    }
}

fn raw_job(id: i64) -> LavaJob {
    LavaJob {
        id,
        submitter: String::from("alice"),
        viewing_groups: vec![3, 1],
        description: String::from("boot test"),
        health_check: true,
        requested_device_type: Some(String::from("qemu")),
        tags: vec![1, 2],
        actual_device: None,
        submit_time: Timestamp { seconds: 1649604600, nanoseconds: 0 },
        start_time: Some(Timestamp { seconds: 1649604660, nanoseconds: 5 }),
        end_time: None,
        state: State::Running,
        health: Health::Unknown,
        priority: 50,
        definition: String::from("job: definition"),
        original_definition: String::from("job: original"),
        multinode_definition: String::new(),
        failure_tags: vec![9],
        failure_comment: Some(String::from("flaky")),
    }
}

#[test]
fn the_enumerations_list_all_their_values() {
    assert_eq!(
        State::all(),
        vec![
            State::Submitted,
            State::Scheduling,
            State::Scheduled,
            State::Running,
            State::Canceling,
            State::Finished
        ]
    );
    assert_eq!(
        Health::all(),
        vec![Health::Unknown, Health::Complete, Health::Incomplete, Health::Canceled]
    );
    assert!(State::Running.same(&State::Running));
    assert!(!State::Running.same(&State::Finished));
    assert_eq!(QuerySetMember::to_string(&Health::Canceled), "Canceled");
}

#[test]
fn a_fresh_query_orders_by_id() {
    let lava = lava();
    let builder = JobsBuilder::new(&lava);
    assert_eq!(pairs(&builder), vec![pair("ordering", "id")]);
    assert_eq!(
        address(builder.query(), &lava),
        "http://lava.example/api/v0.2/jobs/?ordering=id"
    );
    assert_eq!(
        address(lava.jobs().query(), &lava),
        "http://lava.example/api/v0.2/jobs/?ordering=id"
    );
}

#[test]
fn the_ordering_names_field_and_direction() {
    let lava = lava();
    for (ordering, ascending, value) in [
        (JobOrdering::Id, true, "id"),
        (JobOrdering::Id, false, "-id"),
        (JobOrdering::StartTime, true, "start_time"),
        (JobOrdering::StartTime, false, "-start_time"),
        (JobOrdering::EndTime, true, "end_time"),
        (JobOrdering::EndTime, false, "-end_time"),
        (JobOrdering::SubmitTime, true, "submit_time"),
        (JobOrdering::SubmitTime, false, "-submit_time"),
    ] {
        let builder = lava.jobs().ordering(ordering, ascending);
        assert_eq!(pairs(&builder), vec![pair("ordering", value)]);
        assert_eq!(
            address(builder.query(), &lava),
            format!("http://lava.example/api/v0.2/jobs/?ordering={}", value)
        );
    }
}

#[test]
fn states_render_through_their_query_set() {
    let lava = lava();
    let builder = lava.jobs().state(State::Running);
    assert_eq!(
        pairs(&builder),
        vec![pair("ordering", "id"), pair("state", "Running")]
    );
    let builder = lava.jobs().state(State::Running).state(State::Submitted);
    assert_eq!(
        pairs(&builder),
        vec![pair("ordering", "id"), pair("state__in", "Submitted,Running")]
    );
    let builder = lava.jobs().state_not(State::Canceling);
    assert_eq!(
        pairs(&builder),
        vec![
            pair("ordering", "id"),
            pair("state__in", "Submitted,Scheduling,Scheduled,Running,Finished")
        ]
    );
    assert_eq!(
        address(builder.query(), &lava),
        "http://lava.example/api/v0.2/jobs/?ordering=id&state__in=Submitted%2CScheduling%2CScheduled%2CRunning%2CFinished"
    );
    let builder = lava.jobs().state(State::Running).state_not(State::Running);
    assert_eq!(
        pairs(&builder),
        vec![pair("ordering", "id"), pair("state__in", "")]
    );
    assert_eq!(
        address(builder.query(), &lava),
        "http://lava.example/api/v0.2/jobs/?ordering=id&state__in="
    );
    let builder = lava.jobs().state_not(State::Running).state(State::Running);
    assert_eq!(pairs(&builder), vec![pair("ordering", "id")]);
}

#[test]
fn healths_render_through_their_query_set() {
    let lava = lava();
    let builder = lava.jobs().health(Health::Incomplete);
    assert_eq!(
        pairs(&builder),
        vec![pair("ordering", "id"), pair("health", "Incomplete")]
    );
    let builder = lava.jobs().health_not(Health::Canceled);
    assert_eq!(
        pairs(&builder),
        vec![
            pair("ordering", "id"),
            pair("health__in", "Unknown,Complete,Incomplete")
        ]
    );
    let builder = lava
        .jobs()
        .health(Health::Unknown)
        .health(Health::Complete)
        .health(Health::Incomplete)
        .health(Health::Canceled);
    assert_eq!(pairs(&builder), vec![pair("ordering", "id")]);
}

#[test]
fn every_setting_has_its_place_in_the_query() {
    let lava = lava();
    let builder = lava
        .jobs()
        .ended_after(Timestamp { seconds: 1649604000, nanoseconds: 0 })
        .submitted_after(Timestamp { seconds: 1649603400, nanoseconds: 500_000_000 })
        .started_after(Timestamp { seconds: 1649602500, nanoseconds: 0 })
        .id_after(9)
        .health(Health::Complete)
        .limit(7)
        .state(State::Finished)
        .ordering(JobOrdering::EndTime, false);
    assert_eq!(
        pairs(&builder),
        vec![
            pair("ordering", "-end_time"),
            pair("state", "Finished"),
            pair("limit", "7"),
            pair("health", "Complete"),
            pair("id__gt", "9"),
            pair("start_time__gt", "2022-04-10T14:55:00+00:00"),
            pair("submit_time__gt", "2022-04-10T15:10:00.500+00:00"),
            pair("end_time__gt", "2022-04-10T15:20:00+00:00"),
        ]
    );
    assert_eq!(
        address(builder.query(), &lava),
        "http://lava.example/api/v0.2/jobs/?ordering=-end_time&state=Finished&limit=7&health=Complete&id__gt=9&start_time__gt=2022-04-10T14%3A55%3A00%2B00%3A00&submit_time__gt=2022-04-10T15%3A10%3A00.500%2B00%3A00&end_time__gt=2022-04-10T15%3A20%3A00%2B00%3A00"
    );
}

#[test]
fn bounds_are_strict_and_may_be_negative() {
    let lava = lava();
    let builder = lava.jobs().id_after(-12).limit(0);
    assert_eq!(
        pairs(&builder),
        vec![pair("ordering", "id"), pair("limit", "0"), pair("id__gt", "-12")]
    );
    let builder = lava.jobs().limit(u32::MAX).id_after(i64::MAX);
    assert_eq!(
        pairs(&builder),
        vec![
            pair("ordering", "id"),
            pair("limit", "4294967295"),
            pair("id__gt", "9223372036854775807")
        ]
    );
}

#[test]
fn a_later_setting_replaces_an_earlier_one() {
    let lava = lava();
    let builder = lava.jobs().limit(5).limit(6).id_after(1).id_after(2);
    assert_eq!(
        pairs(&builder),
        vec![pair("ordering", "id"), pair("limit", "6"), pair("id__gt", "2")]
    );
}

#[test]
fn an_instant_that_cannot_be_written_makes_no_query() {
    let lava = lava();
    let builder = lava
        .jobs()
        .started_after(Timestamp { seconds: i64::MAX, nanoseconds: 0 });
    assert_eq!(builder.query_pairs(), None);
    assert!(builder.query().is_none());
    let builder = lava
        .jobs()
        .ended_after(Timestamp { seconds: 0, nanoseconds: 2_000_000_000 });
    assert_eq!(builder.query_pairs(), None);
}

#[test]
fn instants_render_so_that_they_read_back() {
    assert_eq!(
        Timestamp { seconds: 0, nanoseconds: 0 }.to_rfc3339().unwrap(),
        "1970-01-01T00:00:00+00:00"
    );
    assert_eq!(
        Timestamp { seconds: 1646076541, nanoseconds: 998_922_000 }.to_rfc3339().unwrap(),
        "2022-02-28T19:29:01.998922+00:00"
    );
    assert_eq!(
        Timestamp { seconds: -1, nanoseconds: 1 }.to_rfc3339().unwrap(),
        "1969-12-31T23:59:59.000000001+00:00"
    );
    assert_eq!(Timestamp { seconds: i64::MIN, nanoseconds: 0 }.to_rfc3339(), None);
    for (seconds, nanoseconds) in [(1649604600i64, 0u32), (1, 999_999_999), (-86400, 120)] {
        let text = Timestamp { seconds, nanoseconds }.to_rfc3339().unwrap();
        let read = chrono::DateTime::parse_from_rfc3339(&text).unwrap();
        assert_eq!(read.timestamp(), seconds);
        assert_eq!(read.timestamp_subsec_nanos(), nanoseconds);
    }
}

#[test]
fn instants_order_by_time() {
    let early = Timestamp { seconds: 10, nanoseconds: 999 };
    let late = Timestamp { seconds: 11, nanoseconds: 0 };
    assert!(early < late);
    assert!(Timestamp { seconds: 11, nanoseconds: 1 } > late);
    assert!(Timestamp { seconds: -5, nanoseconds: 0 } < early);
}

#[test]
fn a_job_takes_over_its_record() {
    let tags = vec![
        Tag { id: 1, name: String::from("one"), description: None },
        Tag { id: 2, name: String::from("two"), description: Some(String::from("second")) },
    ];
    let job = transform_job(raw_job(17), tags.clone(), Vec::new());
    let raw = raw_job(17);
    assert_eq!(
        job,
        Job {
            id: 17,
            submitter: raw.submitter,
            viewing_groups: raw.viewing_groups,
            description: raw.description,
            health_check: raw.health_check,
            requested_device_type: raw.requested_device_type,
            tags,
            actual_device: raw.actual_device,
            submit_time: raw.submit_time,
            start_time: raw.start_time,
            end_time: raw.end_time,
            state: raw.state,
            health: raw.health,
            priority: raw.priority,
            definition: raw.definition,
            original_definition: raw.original_definition,
            multinode_definition: raw.multinode_definition,
            failure_tags: Vec::new(),
            failure_comment: raw.failure_comment,
        }
    );
}

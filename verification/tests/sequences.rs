use lava_api::device::{transform_device, Device, Devices, Health as DeviceHealth, LavaDevice};
use lava_api::job::{Health, Job, Jobs, LavaJob, State};
use lava_api::lava::{Lava, Step};
use lava_api::paginator::{Page, PaginationError, Pull, RequestError};
use lava_api::tag::Tag;
use lava_api::test::{PassFail, TestCase};
use lava_api::timestamp::Timestamp;
use lava_api::worker::{Health as WorkerHealth, State as WorkerState, Worker};
use std::collections::{BTreeMap, BTreeSet, VecDeque};

const SERVER: &str = "http://lava.example";

fn tag(id: u32) -> Tag {
    Tag {
        id,
        name: format!("tag-{}", id),
        description: if id % 2 == 0 { Some(format!("tag number {}", id)) } else { None },
    }
}

fn device(index: u32) -> LavaDevice {
    LavaDevice {
        hostname: format!("test-device-{:02}", index),
        worker_host: format!("worker-{}", index % 4),
        device_type: format!("type-{}", index % 3),
        description: Some(format!("Test description {}", index)),
        health: if index % 5 == 0 { DeviceHealth::Bad } else { DeviceHealth::Good },
        tags: (0..index % 4).map(|i| (index + i) % 5).collect(),
    }
}

const STATES: [State; 6] = [
    State::Submitted,
    State::Scheduling,
    State::Scheduled,
    State::Running,
    State::Canceling,
    State::Finished,
];

const HEALTHS: [Health; 4] = [
    Health::Complete,
    Health::Incomplete,
    Health::Canceled,
    Health::Unknown,
];

fn job(index: u32) -> LavaJob {
    LavaJob {
        id: index as i64,
        submitter: format!("user-{}", index % 5),
        viewing_groups: vec![(index % 3) as i64],
        description: format!("job {}", index),
        health_check: index % 2 == 0,
        requested_device_type: None,
        tags: (0..index % 3).map(|i| (index + i) % 5).collect(),
        actual_device: Some(format!("test-device-{:02}", index)),
        submit_time: Timestamp { seconds: 1649604540 - 60 * index as i64, nanoseconds: 0 },
        start_time: Some(Timestamp { seconds: 1649604600 - 60 * index as i64, nanoseconds: 0 }),
        end_time: Some(Timestamp { seconds: 1649604600 - 30 * index as i64, nanoseconds: 0 }),
        state: STATES[index as usize % 6],
        health: HEALTHS[index as usize % 4],
        priority: 50,
        definition: String::new(),
        original_definition: String::new(),
        multinode_definition: String::new(),
        failure_tags: Vec::new(),
        failure_comment: None,
    }
}

/// The part of `records` that the query of `address` asks for, and the link
/// to the part after it.
fn serve<T: Clone>(
    address: &str,
    records: &[T],
    default_limit: usize,
    admits: impl Fn(&T, &str, &str) -> bool,
) -> Page<T> {
    let url = url::Url::parse(address).expect("the client asked for something that is no URL");
    let mut offset = 0;
    let mut limit = default_limit;
    let mut selected: Vec<T> = records.to_vec();
    for (key, value) in url.query_pairs() {
        match key.as_ref() {
            "offset" => offset = value.parse().unwrap(),
            "limit" => limit = value.parse().unwrap(),
            "ordering" => {}
            _ => selected.retain(|record| admits(record, key.as_ref(), value.as_ref())),
        }
    }
    let end = usize::min(offset + limit, selected.len());
    let next = if end < selected.len() {
        let mut next = url.clone();
        let kept: Vec<(String, String)> = url
            .query_pairs()
            .filter(|(key, _)| key != "offset")
            .map(|(key, value)| (key.into_owned(), value.into_owned()))
            .collect();
        next.query_pairs_mut()
            .clear()
            .extend_pairs(kept)
            .append_pair("offset", &end.to_string());
        Some(String::from(next))
    } else {
        None
    };
    Page {
        count: selected.len() as u32,
        next,
        results: selected[offset..end].iter().cloned().collect::<VecDeque<T>>(),
    }
}

/// Brings the tag cache up to date with `tags`, in pages of two.
fn refresh(lava: &mut Lava, tags: &[Tag], refreshes: &mut usize) {
    *refreshes += 1;
    let mut walk = lava.refresh_tags().expect("no address for the tags");
    loop {
        match lava.absorb(&mut walk) {
            Pull::Fetch(address) => {
                assert!(address.starts_with("http://lava.example/api/v0.2/tags/"));
                let page = serve(&address, tags, 2, |_, _, _| true);
                assert_eq!(walk.deliver(Ok(page)), None);
            }
            Pull::End => break,
            other => panic!("the refresh failed: {:?}", other),
        }
    }
}

fn admits_job(job: &LavaJob, key: &str, value: &str) -> bool {
    match key {
        "state" => job.state.to_string() == value,
        "state__in" => value.split(',').any(|state| job.state.to_string() == state),
        "health" => job.health.to_string() == value,
        "health__in" => value.split(',').any(|health| job.health.to_string() == health),
        "id__gt" => job.id > value.parse::<i64>().unwrap(),
        _ => panic!("the server does not know the filter {}", key),
    }
}

fn all_jobs(jobs: Option<Jobs>, lava: &mut Lava, records: &[LavaJob], tags: &[Tag]) -> Vec<Job> {
    let mut jobs = jobs.expect("no query");
    let mut seen = Vec::new();
    let mut refreshes = 0;
    loop {
        match jobs.step(lava) {
            Step::Item(job) => seen.push(job),
            Step::Fetch(address) => {
                assert!(address.starts_with("http://lava.example/api/v0.2/jobs/?"));
                let page = serve(&address, records, 7, admits_job);
                assert_eq!(jobs.deliver(Ok(page)), None);
            }
            Step::Refresh => refresh(lava, tags, &mut refreshes),
            Step::Error(reason) => panic!("failed to get job: {:?}", reason),
            Step::End => break,
        }
    }
    seen
}

#[test]
fn device_test_basic() {
    let tags: Vec<Tag> = (0..5).map(tag).collect();
    let source: Vec<LavaDevice> = (0..50).map(device).collect();
    let mut map = BTreeMap::new();
    for device in source.iter() {
        map.insert(device.hostname.clone(), device.clone());
    }

    let mut lava = Lava::new(SERVER, None).expect("failed to make lava");
    let mut devices = lava.devices().expect("no address for the devices");
    let mut seen = BTreeMap::new();
    let mut fetched = 0;
    let mut refreshes = 0;
    loop {
        match devices.step(&lava) {
            Step::Item(device) => {
                assert!(!seen.contains_key(&device.hostname));
                assert!(map.contains_key(&device.hostname));
                let dev = map.get(&device.hostname).unwrap();
                assert_eq!(device.hostname, dev.hostname);
                assert_eq!(device.worker_host, dev.worker_host);
                assert_eq!(device.device_type, dev.device_type);
                assert_eq!(device.description, dev.description);
                assert_eq!(device.health.to_string(), dev.health.to_string());
                assert_eq!(device.tags.len(), dev.tags.len());
                for i in 0..device.tags.len() {
                    assert_eq!(device.tags[i], tag(dev.tags[i]));
                }
                seen.insert(device.hostname.clone(), device.clone());
            }
            Step::Fetch(address) => {
                if fetched == 0 {
                    assert_eq!(
                        address,
                        "http://lava.example/api/v0.2/devices/?ordering=hostname"
                    );
                }
                fetched += 1;
                let page = serve(&address, &source, 5, |_, _, _| true);
                assert_eq!(devices.deliver(Ok(page)), None);
            }
            Step::Refresh => refresh(&mut lava, &tags, &mut refreshes),
            Step::Error(reason) => panic!("failed to get device: {:?}", reason),
            Step::End => break,
        }
    }
    assert_eq!(seen.len(), 50);
    assert_eq!(fetched, 10);
    assert_eq!(devices.reported_items(), Some(50));
    // All the tags exist: the first unknown one brings them all.
    assert_eq!(refreshes, 1);
    let hostnames: BTreeSet<&String> = seen.keys().collect();
    assert_eq!(hostnames.len(), 50);
}

#[test]
fn job_test_basic() {
    let tags: Vec<Tag> = (0..5).map(tag).collect();
    let source: Vec<LavaJob> = (0..50).map(job).collect();
    let mut lava = Lava::new(SERVER, None).expect("failed to make lava");
    let seen = all_jobs(lava.jobs().query(), &mut lava, &source, &tags);
    assert_eq!(seen.len(), 50);
    for (job, raw) in seen.iter().zip(source.iter()) {
        assert_eq!(job.id, raw.id);
        assert_eq!(job.submitter, raw.submitter);
        assert_eq!(job.viewing_groups, raw.viewing_groups);
        assert_eq!(job.description, raw.description);
        assert_eq!(job.health_check, raw.health_check);
        assert_eq!(job.requested_device_type, raw.requested_device_type);
        assert_eq!(job.tags.len(), raw.tags.len());
        for i in 0..job.tags.len() {
            assert_eq!(job.tags[i], tag(raw.tags[i]));
        }
        assert_eq!(job.actual_device, raw.actual_device);
        assert_eq!(job.submit_time, raw.submit_time);
        assert_eq!(job.start_time, raw.start_time);
        assert_eq!(job.end_time, raw.end_time);
        assert_eq!(job.state, raw.state);
        assert_eq!(job.health, raw.health);
        assert_eq!(job.priority, raw.priority);
        assert_eq!(job.failure_tags.len(), raw.failure_tags.len());
        assert_eq!(job.failure_comment, raw.failure_comment);
    }
}

#[test]
fn test_jobs_builder() {
    let tags: Vec<Tag> = (0..5).map(tag).collect();
    let source: Vec<LavaJob> = (0..50).map(job).collect();
    let mut lava = Lava::new(SERVER, None).expect("failed to make lava");

    let query = lava.jobs().state(State::Running).query();
    let seen = all_jobs(query, &mut lava, &source, &tags);
    for job in seen.iter() {
        assert_eq!(job.state, State::Running);
    }
    assert_eq!(seen.len(), 8);
    assert_eq!(
        seen.len(),
        source.iter().filter(|job| job.state == State::Running).count()
    );

    let query = lava.jobs().state_not(State::Canceling).query();
    let seen = all_jobs(query, &mut lava, &source, &tags);
    for job in seen.iter() {
        assert_ne!(job.state, State::Canceling);
    }
    assert_eq!(seen.len(), 42);

    let query = lava.jobs().health(Health::Incomplete).query();
    let seen = all_jobs(query, &mut lava, &source, &tags);
    for job in seen.iter() {
        assert_eq!(job.health, Health::Incomplete);
    }
    assert_eq!(seen.len(), 13);

    let query = lava.jobs().health_not(Health::Canceled).query();
    let seen = all_jobs(query, &mut lava, &source, &tags);
    for job in seen.iter() {
        assert_ne!(job.health, Health::Canceled);
    }
    assert_eq!(seen.len(), 38);

    let query = lava.jobs().id_after(9i64).query();
    let seen = all_jobs(query, &mut lava, &source, &tags);
    for job in seen.iter() {
        assert!(job.id > 9i64);
    }
    assert_eq!(seen.len(), 40);

    let query = lava.jobs().limit(3).state(State::Finished).query();
    let seen = all_jobs(query, &mut lava, &source, &tags);
    assert_eq!(seen.len(), 8);
}

#[test]
fn unresolvable_tags_are_left_out() {
    let known = vec![tag(1), tag(3)];
    let mut record = job(0);
    record.tags = vec![3, 2, 1];
    record.failure_tags = vec![2, 3];
    let source = vec![record];
    let mut lava = Lava::new(SERVER, None).expect("failed to make lava");
    let seen = all_jobs(lava.jobs().query(), &mut lava, &source, &known);
    assert_eq!(seen.len(), 1);
    assert_eq!(seen[0].tags, vec![tag(3), tag(1)]);
    assert_eq!(seen[0].failure_tags, vec![tag(3)]);
}

#[test]
fn a_miss_costs_one_refresh_and_a_hit_none() {
    let known = vec![tag(1), tag(3)];
    let mut lava = Lava::new(SERVER, None).expect("failed to make lava");
    let mut devices = Devices::new(&lava).unwrap();
    assert!(matches!(devices.step(&lava), Step::Fetch(_)));
    let mut first = device(0);
    first.tags = vec![1, 2, 3, 2, 1];
    let mut second = device(1);
    second.tags = vec![3, 1];
    let page = Page {
        count: 2,
        next: None,
        results: VecDeque::from(vec![first.clone(), second.clone()]),
    };
    assert_eq!(devices.deliver(Ok(page)), None);

    let mut refreshes = 0;
    let mut seen = Vec::new();
    loop {
        match devices.step(&lava) {
            Step::Item(device) => seen.push((device, refreshes)),
            Step::Refresh => refresh(&mut lava, &known, &mut refreshes),
            Step::End => break,
            other => panic!("unexpected step {:?}", other),
        }
    }
    // The unknown tag 1 brings the refresh that makes 1 and 3 known; the
    // tag 2 misses twice, and each miss has its one refresh.
    assert_eq!(seen.len(), 2);
    assert_eq!(seen[0].0.tags, vec![tag(1), tag(3), tag(1)]);
    assert_eq!(seen[0].1, 3);
    // Every tag of the second device is known by now.
    assert_eq!(seen[1].0.tags, vec![tag(3), tag(1)]);
    assert_eq!(seen[1].1, 3);
    assert_eq!(seen[0].0, transform_device(first, vec![tag(1), tag(3), tag(1)]));
}

#[test]
fn the_next_record_waits_for_the_one_in_hand() {
    let mut lava = Lava::new(SERVER, None).expect("failed to make lava");
    let mut devices = lava.devices().unwrap();
    assert!(matches!(devices.step(&lava), Step::Fetch(_)));
    let mut first = device(0);
    first.tags = vec![4];
    let mut second = device(1);
    second.tags = Vec::new();
    let page = Page {
        count: 2,
        next: None,
        results: VecDeque::from(vec![first, second]),
    };
    assert_eq!(devices.deliver(Ok(page)), None);
    assert!(matches!(devices.step(&lava), Step::Refresh));
    lava.store(tag(4));
    match devices.step(&lava) {
        Step::Item(device) => {
            assert_eq!(device.hostname, "test-device-00");
            assert_eq!(device.tags, vec![tag(4)]);
        }
        other => panic!("unexpected step {:?}", other),
    }
    match devices.step(&lava) {
        Step::Item(device) => {
            assert_eq!(device.hostname, "test-device-01");
            assert!(device.tags.is_empty());
        }
        other => panic!("unexpected step {:?}", other),
    }
    assert!(matches!(devices.step(&lava), Step::End));
}

#[test]
fn a_failed_page_is_surfaced_once_and_asked_for_again() {
    let lava = Lava::new(SERVER, None).expect("failed to make lava");
    let mut jobs = lava.jobs().query().unwrap();
    let asked = match jobs.step(&lava) {
        Step::Fetch(address) => address,
        other => panic!("unexpected step {:?}", other),
    };
    let failure = PaginationError::ReqWest(RequestError {
        status: None,
        message: String::from("connection refused"),
    });
    assert!(jobs.deliver(Err(failure)).is_some());
    match jobs.step(&lava) {
        Step::Fetch(address) => assert_eq!(address, asked),
        other => panic!("unexpected step {:?}", other),
    }
    let page = Page {
        count: 1,
        next: Some(String::from("http://[")),
        results: VecDeque::from(vec![job(1)]),
    };
    assert_eq!(jobs.deliver(Ok(page)), None);
    assert!(matches!(jobs.step(&lava), Step::Refresh));
    assert!(matches!(jobs.step(&lava), Step::Item(_)));
    assert!(matches!(
        jobs.step(&lava),
        Step::Error(PaginationError::ParseNextError(_))
    ));
    assert!(matches!(jobs.step(&lava), Step::End));
    assert_eq!(jobs.reported_items(), Some(1));
}

#[test]
fn a_device_takes_over_its_record() {
    let raw = device(7);
    let tags = vec![tag(2), tag(3)];
    assert_eq!(
        transform_device(raw.clone(), tags.clone()),
        Device {
            hostname: raw.hostname,
            worker_host: raw.worker_host,
            device_type: raw.device_type,
            description: raw.description,
            health: raw.health,
            tags,
        }
    );
}

#[test]
fn tag_test_basic() {
    let source: Vec<Tag> = (0..49).map(tag).collect();
    let mut lava = Lava::new(SERVER, None).expect("failed to make lava");
    let mut walk = lava.refresh_tags().expect("no address for the tags");
    let mut fetched = 0;
    loop {
        match lava.absorb(&mut walk) {
            Pull::Fetch(address) => {
                fetched += 1;
                let page = serve(&address, &source, 5, |_, _, _| true);
                assert_eq!(walk.deliver(Ok(page)), None);
            }
            Pull::End => break,
            other => panic!("failed to get tags: {:?}", other),
        }
    }
    assert_eq!(fetched, 10);
    let tags = lava.tags();
    let mut seen = BTreeMap::new();
    for tag in tags {
        assert!(!seen.contains_key(&tag.id));
        assert_eq!(tag, source[tag.id as usize]);
        seen.insert(tag.id, tag.clone());
    }
    assert_eq!(seen.len(), 49);
}

#[test]
fn worker_test_basic() {
    let source: Vec<Worker> = (0..51)
        .map(|index| Worker {
            hostname: format!("a-test-worker-{}", index),
            state: if index % 2 == 0 { WorkerState::Online } else { WorkerState::Offline },
            health: if index % 3 == 0 { WorkerHealth::Active } else { WorkerHealth::Retired },
        })
        .collect();
    let lava = Lava::new(SERVER, None).expect("failed to make lava");
    let mut workers = lava.workers().expect("no address for the workers");
    let mut seen = BTreeMap::new();
    let mut fetched = 0;
    loop {
        match workers.pull() {
            Pull::Item(worker) => {
                assert!(!seen.contains_key(&worker.hostname));
                let wk = &source[seen.len()];
                assert_eq!(worker.hostname, wk.hostname);
                assert_eq!(worker.state.to_string(), wk.state.to_string());
                assert_eq!(worker.health.to_string(), wk.health.to_string());
                seen.insert(worker.hostname.clone(), worker.clone());
            }
            Pull::Fetch(address) => {
                fetched += 1;
                let page = serve(&address, &source, 2, |_, _, _| true);
                assert_eq!(workers.deliver(Ok(page)), None);
            }
            Pull::Error(reason) => panic!("failed to get worker: {:?}", reason),
            Pull::End => break,
        }
    }
    assert_eq!(seen.len(), 51);
    assert_eq!(fetched, 26);
}

#[test]
fn test_test_basic() {
    let lava = Lava::new(SERVER, None).expect("failed to make lava");
    let mut seen = BTreeMap::new();
    for job_id in 0..3i64 {
        let source: Vec<TestCase> = (0..20)
            .map(|index| TestCase {
                id: job_id * 20 + index,
                name: format!("example-case-{}", index),
                unit: String::from("seconds"),
                result: if index % 2 == 0 { PassFail::Pass } else { PassFail::Fail },
                measurement: Some(String::from("0.1000000000")),
                metadata: None,
                suite: job_id * 6 + index % 6,
                start_log_line: None,
                end_log_line: Some(index as u32),
                test_set: None,
                logged: Timestamp { seconds: 1649692800 + 1800 * index, nanoseconds: 0 },
                resource_uri: format!("example-resource-uri-{}", index),
            })
            .collect();
        let mut tests = lava.test_cases(job_id).expect("no address for the tests");
        loop {
            match tests.pull() {
                Pull::Item(test) => {
                    assert!(!seen.contains_key(&test.id));
                    let tt = &source[(test.id - job_id * 20) as usize];
                    assert_eq!(test.name, tt.name);
                    assert_eq!(test.unit, tt.unit);
                    assert_eq!(test.result.to_string(), tt.result.to_string());
                    assert_eq!(test.measurement, tt.measurement);
                    assert_eq!(test.suite, tt.suite);
                    assert_eq!(test.end_log_line, tt.end_log_line);
                    assert_eq!(test.logged, tt.logged);
                    assert_eq!(test.resource_uri, tt.resource_uri);
                    seen.insert(test.id, test.clone());
                }
                Pull::Fetch(address) => {
                    assert!(address.starts_with(&format!(
                        "http://lava.example/api/v0.2/jobs/{}/tests/",
                        job_id
                    )));
                    let page = serve(&address, &source, 6, |_, _, _| true);
                    assert_eq!(tests.deliver(Ok(page)), None);
                }
                Pull::Error(reason) => panic!("failed to get test: {:?}", reason),
                Pull::End => break,
            }
        }
    }
    assert_eq!(seen.len(), 60);
}

#[test]
fn a_redirect_failure_ends_the_sequence() {
    let lava = Lava::new(SERVER, None).expect("failed to make lava");
    let mut devices = lava.devices().unwrap();
    assert!(matches!(devices.step(&lava), Step::Fetch(_)));
    let page = Page {
        count: 4,
        next: Some(String::from("?ordering=hostname&offset=1")),
        results: VecDeque::from(vec![device(0)]),
    };
    assert_eq!(devices.deliver(Ok(page)), None);
    assert_eq!(devices.reported_items(), Some(4));
    assert!(matches!(devices.step(&lava), Step::Item(_)));
    // The link is read against the address of the page.
    match devices.step(&lava) {
        Step::Fetch(address) => assert_eq!(
            address,
            "http://lava.example/api/v0.2/devices/?ordering=hostname&offset=1"
        ),
        other => panic!("unexpected step {:?}", other),
    }
    assert_eq!(
        devices.deliver(Err(PaginationError::TooManyRedirects)),
        Some(PaginationError::TooManyRedirects)
    );
    assert!(matches!(devices.step(&lava), Step::End));
    assert!(matches!(devices.step(&lava), Step::End));

    let mut jobs = lava.jobs().query().unwrap();
    assert!(matches!(jobs.step(&lava), Step::Fetch(_)));
    assert_eq!(
        jobs.deliver(Err(PaginationError::RedirectMissing)),
        Some(PaginationError::RedirectMissing)
    );
    assert!(matches!(jobs.step(&lava), Step::End));
    assert_eq!(jobs.reported_items(), None);
}

use sensor_bridge::sample::Sample;
use sensor_bridge::store::TelemetryStore;

fn number(token: &str) -> Option<f64> {
    token.parse::<f64>().ok()
}

fn ramp(from: f64) -> Sample<f64> {
    Sample::new([from, from + 1.0, from + 2.0, from + 3.0, from + 4.0, from + 5.0, from + 6.0])
}

#[test]
fn new_store_is_empty() {
    let store: TelemetryStore<f64> = TelemetryStore::new();
    assert_eq!(store.read_latest(), Vec::<f64>::new());
    assert_eq!(store.read_history(), Vec::<Sample<f64>>::new());
    assert_eq!(store.latest(), None);
    assert_eq!(store.len(), 0);
}

#[test]
fn commit_sets_latest_and_appends() {
    let mut store = TelemetryStore::new();
    store.commit(ramp(1.0));
    assert_eq!(store.read_latest(), vec![1.0, 2.0, 3.0, 4.0, 5.0, 6.0, 7.0]);
    assert_eq!(store.read_history(), vec![ramp(1.0)]);
    store.commit(ramp(10.0));
    assert_eq!(store.read_latest(), vec![10.0, 11.0, 12.0, 13.0, 14.0, 15.0, 16.0]);
    assert_eq!(store.read_history(), vec![ramp(1.0), ramp(10.0)]);
    assert_eq!(store.len(), 2);
}

#[test]
fn latest_is_last_of_history_after_every_commit() {
    let mut store = TelemetryStore::new();
    for k in 0..25 {
        store.commit(ramp(k as f64));
        let history = store.read_history();
        assert_eq!(store.latest(), history.last().copied());
        assert_eq!(store.read_latest(), history.last().unwrap().to_vec());
        assert_eq!(history.len(), k + 1);
    }
}

#[test]
fn valid_lines_are_kept_in_submission_order() {
    let mut store = TelemetryStore::new();
    store.ingest_line("1,2,3,4,5,6,7\n", number);
    store.ingest_line("8,9,10,11,12,13,14,1,0\n", number);
    store.ingest_line("0.5,1.5,2.5,3.5,4.5,5.5,6.5,7.5\n", number);
    assert_eq!(
        store.read_history(),
        vec![
            Sample { readings: [1.0, 2.0, 3.0, 4.0, 5.0, 6.0, 7.0] },
            Sample { readings: [8.0, 9.0, 10.0, 11.0, 12.0, 13.0, 14.0] },
            Sample { readings: [0.5, 1.5, 2.5, 3.5, 4.5, 5.5, 6.5] },
        ]
    );
    assert_eq!(store.read_latest(), vec![0.5, 1.5, 2.5, 3.5, 4.5, 5.5, 6.5]);
}

#[test]
fn short_line_changes_nothing() {
    let mut store = TelemetryStore::new();
    store.ingest_line("1,2,3,4,5,6,7", number);
    let latest = store.read_latest();
    let history = store.read_history();
    store.ingest_line("1,2,3,4,5,6", number);
    store.ingest_line("", number);
    store.ingest_line("a,b,c,d,e,f,g,h", number);
    assert_eq!(store.read_latest(), latest);
    assert_eq!(store.read_history(), history);
}

#[test]
fn short_line_on_an_empty_store_leaves_it_empty() {
    let mut store: TelemetryStore<f64> = TelemetryStore::new();
    store.ingest_line("9,9,9", number);
    assert_eq!(store.read_latest(), Vec::<f64>::new());
    assert_eq!(store.len(), 0);
}

#[test]
fn second_line_of_three_fields_is_dropped() {
    let mut store = TelemetryStore::new();
    store.ingest_line("1,2,3,4,5,6,7,X,Y", number);
    store.ingest_line("9,9,9", number);
    assert_eq!(store.read_history(), vec![Sample { readings: [1.0, 2.0, 3.0, 4.0, 5.0, 6.0, 7.0] }]);
    assert_eq!(store.read_latest(), vec![1.0, 2.0, 3.0, 4.0, 5.0, 6.0, 7.0]);
}

#[test]
fn reset_empties_both() {
    let mut store = TelemetryStore::new();
    store.commit(ramp(1.0));
    store.commit(ramp(2.0));
    store.reset();
    assert_eq!(store.read_latest(), Vec::<f64>::new());
    assert_eq!(store.read_history(), Vec::<Sample<f64>>::new());
    assert_eq!(store.latest(), None);
}

#[test]
fn reset_of_an_empty_store_is_harmless() {
    let mut store: TelemetryStore<f64> = TelemetryStore::new();
    store.reset();
    store.reset();
    assert_eq!(store.len(), 0);
    assert_eq!(store.read_latest(), Vec::<f64>::new());
}

#[test]
fn commits_after_a_reset_start_a_new_history() {
    let mut store = TelemetryStore::new();
    store.commit(ramp(1.0));
    store.reset();
    store.commit(ramp(5.0));
    assert_eq!(store.read_history(), vec![ramp(5.0)]);
    assert_eq!(store.latest(), Some(ramp(5.0)));
}

#[test]
fn snapshots_do_not_follow_the_store() {
    let mut store = TelemetryStore::new();
    store.commit(ramp(1.0));
    let mut history = store.read_history();
    let mut latest = store.read_latest();
    store.commit(ramp(2.0));
    assert_eq!(history, vec![ramp(1.0)]);
    assert_eq!(latest, vec![1.0, 2.0, 3.0, 4.0, 5.0, 6.0, 7.0]);
    history.clear();
    latest.clear();
    assert_eq!(store.read_history(), vec![ramp(1.0), ramp(2.0)]);
    assert_eq!(store.read_latest(), vec![2.0, 3.0, 4.0, 5.0, 6.0, 7.0, 8.0]);
}

#[test]
fn interleaved_connections_keep_their_own_order() {
    let first = ["1,1,1,1,1,1,1", "bad", "2,2,2,2,2,2,2", "3,3,3,3,3,3,3"];
    let second = ["10,10,10,10,10,10,10", "20,20,20,20,20,20,20", "1,2,3"];
    let third = ["100,100,100,100,100,100,100,7,7"];
    let order = [1usize, 0, 0, 2, 1, 0, 1, 0];
    let lines = [&first[..], &second[..], &third[..]];
    let mut next = [0usize; 3];
    let mut store = TelemetryStore::new();
    for connection in order {
        store.ingest_line(lines[connection][next[connection]], number);
        next[connection] += 1;
    }
    let heads: Vec<f64> = store.read_history().iter().map(|sample| sample.readings[0]).collect();
    assert_eq!(heads, vec![10.0, 1.0, 100.0, 20.0, 2.0, 3.0]);
    let of_first: Vec<f64> = heads.iter().copied().filter(|head| *head < 10.0).collect();
    let of_second: Vec<f64> =
        heads.iter().copied().filter(|head| 10.0 <= *head && *head < 100.0).collect();
    let of_third: Vec<f64> = heads.iter().copied().filter(|head| *head >= 100.0).collect();
    assert_eq!(of_first, vec![1.0, 2.0, 3.0]);
    assert_eq!(of_second, vec![10.0, 20.0]);
    assert_eq!(of_third, vec![100.0]);
}

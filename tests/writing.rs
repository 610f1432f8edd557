use system_ingest::record::ErrorKind;
use system_ingest::writer::{after_existence_check, count_means_exists, write_outcome, WriteStep};

#[test]
fn existence_count_decides() {
    assert!(count_means_exists(Some(1)));
    assert!(count_means_exists(Some(3)));
    assert!(!count_means_exists(Some(0)));
    assert!(!count_means_exists(Some(-1)));
    assert!(!count_means_exists(None));
}

#[test]
fn existence_check_steps() {
    assert_eq!(after_existence_check(Ok(Some(0))), WriteStep::Insert);
    assert_eq!(after_existence_check(Ok(None)), WriteStep::Insert);
    assert_eq!(after_existence_check(Ok(Some(1))), WriteStep::Skip);
    assert_eq!(after_existence_check(Err(ErrorKind::Store)), WriteStep::Fail(ErrorKind::Store));
}

#[test]
fn write_outcomes() {
    assert_eq!(write_outcome(WriteStep::Skip, Err(ErrorKind::Store)), Ok(()));
    assert_eq!(write_outcome(WriteStep::Insert, Ok(())), Ok(()));
    assert_eq!(write_outcome(WriteStep::Insert, Err(ErrorKind::Store)), Err(ErrorKind::Store));
    assert_eq!(
        write_outcome(WriteStep::Fail(ErrorKind::Transport), Ok(())),
        Err(ErrorKind::Transport)
    );
}

fn gated_write(store: &mut Vec<i64>, id: i64) {
    let count = store.iter().filter(|&&x| x == id).count() as i64;
    let step = after_existence_check(Ok(Some(count)));
    if step == WriteStep::Insert {
        store.push(id);
    }
    assert!(write_outcome(step, Ok(())).is_ok());
}

#[test]
fn writing_same_id_twice_keeps_one_node() {
    let mut store: Vec<i64> = Vec::new();
    gated_write(&mut store, 30000142);
    gated_write(&mut store, 30000142);
    assert_eq!(store.iter().filter(|&&x| x == 30000142).count(), 1);
    gated_write(&mut store, 30000144);
    assert_eq!(store, vec![30000142, 30000144]);
}

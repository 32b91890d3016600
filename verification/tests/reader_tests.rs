use windows_memory_monitor::reader::{
    CompressedMemoryReader, MemoryError, PdhAction, PdhEvent, ReadPhase, PDH_NO_DATA,
};

/// Runs one read, answering the reader's actions with the given statuses.
fn read(r: &mut CompressedMemoryReader, open: u32, add: u32, collect: u32, fmt: u32, value: i64) -> (Result<u64, MemoryError>, Vec<PdhAction>) {
    let mut actions = Vec::new();
    let mut event = PdhEvent::ReadRequested;
    loop {
        assert!(r.expects(event));
        let action = r.step(event);
        actions.push(action);
        event = match action {
            PdhAction::Finish(res) => return (res, actions),
            PdhAction::OpenQuery => PdhEvent::QueryOpened(open),
            PdhAction::AddCounter => PdhEvent::CounterAdded(add),
            PdhAction::CollectBaseline => PdhEvent::BaselineCollected,
            PdhAction::CollectData => PdhEvent::DataCollected(collect),
            PdhAction::FormatValue => PdhEvent::ValueFormatted(fmt, value),
        };
    }
}

#[test]
fn first_read_sets_up_the_query() {
    let mut r = CompressedMemoryReader::new();
    let (res, actions) = read(&mut r, 0, 0, 0, 0, 123_456);
    assert_eq!(res, Ok(123_456));
    assert_eq!(
        actions,
        vec![
            PdhAction::OpenQuery,
            PdhAction::AddCounter,
            PdhAction::CollectBaseline,
            PdhAction::CollectData,
            PdhAction::FormatValue,
            PdhAction::Finish(Ok(123_456)),
        ]
    );
    assert!(r.initialized);
    assert_eq!(r.phase, ReadPhase::Idle);
}

#[test]
fn later_reads_skip_the_setup() {
    let mut r = CompressedMemoryReader::new();
    read(&mut r, 0, 0, 0, 0, 1);
    let (res, actions) = read(&mut r, 9, 9, 0, 0, 2048);
    assert_eq!(res, Ok(2048));
    assert_eq!(actions[0], PdhAction::CollectData);
    assert_eq!(actions.len(), 3);
}

#[test]
fn open_failure_is_reported_and_retried() {
    let mut r = CompressedMemoryReader::new();
    let (res, _) = read(&mut r, 0xC0000BB8, 0, 0, 0, 0);
    assert_eq!(res, Err(MemoryError::Pdh(0xC0000BB8)));
    assert!(!r.initialized);
    let (_, actions) = read(&mut r, 0, 0, 0, 0, 0);
    assert_eq!(actions[0], PdhAction::OpenQuery);
}

#[test]
fn add_failure_is_reported() {
    let mut r = CompressedMemoryReader::new();
    let (res, _) = read(&mut r, 0, 0xC0000BC0, 0, 0, 0);
    assert_eq!(res, Err(MemoryError::Pdh(0xC0000BC0)));
    assert!(!r.initialized);
}

#[test]
fn no_data_reads_as_zero() {
    let mut r = CompressedMemoryReader::new();
    let (res, _) = read(&mut r, 0, 0, PDH_NO_DATA, 0, 77);
    assert_eq!(res, Ok(0));
    assert!(r.initialized);
}

#[test]
fn collect_and_format_failures_are_reported() {
    let mut r = CompressedMemoryReader::new();
    assert_eq!(read(&mut r, 0, 0, 0xC0000BC6, 0, 0).0, Err(MemoryError::Pdh(0xC0000BC6)));
    assert_eq!(read(&mut r, 0, 0, 0, 0xC0000BBA, 0).0, Err(MemoryError::Pdh(0xC0000BBA)));
}

#[test]
fn negative_values_read_as_zero() {
    let mut r = CompressedMemoryReader::new();
    assert_eq!(read(&mut r, 0, 0, 0, 0, -5).0, Ok(0));
}

#[test]
fn unexpected_events_are_recognised() {
    let r = CompressedMemoryReader::new();
    assert!(r.expects(PdhEvent::ReadRequested));
    assert!(!r.expects(PdhEvent::DataCollected(0)));
}

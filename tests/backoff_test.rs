use scheduler::backoff::{retry_delay, CONNECT_RETRIES};

#[test]
fn waits_double_until_retries_run_out() {
    let waits: Vec<Option<u64>> = (0..=CONNECT_RETRIES + 1).map(retry_delay).collect();
    assert_eq!(waits, vec![None, Some(1), Some(2), Some(4), Some(8), Some(16), None]);
    assert_eq!(retry_delay(u32::MAX), None);
}

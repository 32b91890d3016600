use windows_memory_monitor::history::{Histories, History, HISTORY_LEN};

#[test]
fn filled_window_is_full_of_the_initial_value() {
    let h = History::filled(0.0f32);
    assert_eq!(h.len(), HISTORY_LEN);
    assert_eq!(h.samples(), vec![0.0f32; 40]);
}

#[test]
fn push_drops_the_oldest_sample_when_full() {
    let mut h = History::filled(0u32);
    h.push(7);
    let s = h.samples();
    assert_eq!(s.len(), 40);
    assert_eq!(s[39], 7);
    assert_eq!(s[..39], [0u32; 39]);
}

#[test]
fn window_keeps_the_latest_forty_samples() {
    let mut h = History::filled(0u32);
    for v in 1..=100u32 {
        h.push(v);
    }
    let expected: Vec<u32> = (61..=100).collect();
    assert_eq!(h.samples(), expected);
    assert_eq!(h.len(), HISTORY_LEN);
}

#[test]
fn histories_start_with_forty_zeros_each() {
    let hs = Histories::filled(0.0f32);
    for h in [&hs.phys, &hs.gpu, &hs.compressed, &hs.commit, &hs.cache, &hs.pagefile, &hs.working, &hs.private] {
        assert_eq!(h.samples(), vec![0.0f32; 40]);
    }
}

#[test]
fn pushing_into_one_history_leaves_the_others() {
    let mut hs = Histories::filled(0.0f32);
    hs.phys.push(50.0);
    assert_eq!(hs.phys.samples()[39], 50.0);
    assert_eq!(hs.gpu.samples(), vec![0.0f32; 40]);
}

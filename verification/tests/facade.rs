use ds3_bridge::CompletionEvent;
use ds3_bridge::CompletionHandler;
use ds3_bridge::Config;
use ds3_bridge::ConfigError;
use ds3_bridge::EventLog;
use ds3_bridge::MemorySystem;
use ds3_bridge::slot::CallbackSlot;
use ds3_bridge::slot::SlotState;

fn config() -> Config {
    Config { tck_fs: 1_000_000, bus_bits: 128, burst_length: 8, queue_depth: 4, latency: 3 }
}

#[test]
fn test() {
    let mut sys = MemorySystem::new(config()).unwrap();

    let mut pushed = false;
    let mut log = EventLog::new();
    let mut rounds = 0;

    loop {
        sys.tick(&mut log);
        if !pushed && sys.can_add(0xdeadbeef, false) {
            assert!(sys.add(0xdeadbeef, false));
            pushed = true;
        }
        if !log.events().is_empty() {
            break;
        }
        rounds += 1;
        assert!(rounds < 100, "completion never arrived");
    }

    assert_eq!(log.events().len(), 1);
    assert_eq!(log.events()[0].addr, 0xdeadbeef);
    assert_eq!(log.events()[0].is_write, false);
}

#[test]
fn empty_system_stays_silent() {
    let mut sys = MemorySystem::new(config()).unwrap();
    let mut log = EventLog::new();
    for _ in 0..50 {
        sys.tick(&mut log);
    }
    assert!(log.events().is_empty());
}

#[test]
fn accepted_operation_completes_exactly_once() {
    let mut sys = MemorySystem::new(config()).unwrap();
    let mut log = EventLog::new();
    assert!(sys.add(0x1000, true));
    for _ in 0..20 {
        sys.tick(&mut log);
    }
    let hits = log
        .events()
        .iter()
        .filter(|e| e.addr == 0x1000 && e.is_write)
        .count();
    assert_eq!(hits, 1);
    assert_eq!(log.events().len(), 1);
}

#[test]
fn rejected_submission_never_completes() {
    let cfg = Config { queue_depth: 1, ..config() };
    let mut sys = MemorySystem::new(cfg).unwrap();
    let mut log = EventLog::new();
    assert!(sys.add(0xaaaa, false));
    // the queue is now full: this submission is refused, at most one
    // enqueue attempt is made, and its event must never surface
    assert!(!sys.can_add(0xbbbb, false));
    assert!(!sys.add(0xbbbb, false));
    for _ in 0..20 {
        sys.tick(&mut log);
    }
    assert_eq!(log.events().len(), 1);
    assert_eq!(log.events()[0], CompletionEvent { addr: 0xaaaa, is_write: false });
}

#[test]
fn admission_matches_capacity() {
    let cfg = Config { queue_depth: 2, ..config() };
    let mut sys = MemorySystem::new(cfg).unwrap();
    let mut log = EventLog::new();

    assert!(sys.can_add(1, false));
    assert!(sys.add(1, false));
    assert!(sys.can_add(2, true));
    assert!(sys.add(2, true));
    assert!(!sys.can_add(3, false));
    assert!(!sys.add(3, false));

    // once the queue drains, admission opens up again
    for _ in 0..10 {
        sys.tick(&mut log);
    }
    assert_eq!(log.events().len(), 2);
    assert!(sys.can_add(3, false));
    assert!(sys.add(3, false));
}

#[test]
fn completions_arrive_in_queue_order() {
    let mut sys = MemorySystem::new(config()).unwrap();
    let mut log = EventLog::new();
    assert!(sys.add(7, false));
    assert!(sys.add(8, true));
    for _ in 0..10 {
        sys.tick(&mut log);
    }
    assert_eq!(log.events().len(), 2);
    assert_eq!(log.events()[0], CompletionEvent { addr: 7, is_write: false });
    assert_eq!(log.events()[1], CompletionEvent { addr: 8, is_write: true });
}

#[test]
fn parameters_are_stable() {
    let mut sys = MemorySystem::new(config()).unwrap();
    assert_eq!(sys.tck(), 1_000_000);
    assert_eq!(sys.bus_bits(), 128);
    assert_eq!(sys.burst_length(), 8);
    assert_eq!(sys.queue_size(), 4);

    // stepping and submitting change nothing about the parameters
    let mut log = EventLog::new();
    sys.add(42, true);
    for _ in 0..5 {
        sys.tick(&mut log);
    }
    assert_eq!(sys.tck(), 1_000_000);
    assert_eq!(sys.bus_bits(), 128);
    assert_eq!(sys.burst_length(), 8);
    assert_eq!(sys.queue_size(), 4);
}

/// A handler of the caller's own that mutates captured state.
struct Tally {
    count: usize,
    written: usize,
    sum: u64,
}

impl CompletionHandler for Tally {
    fn on_complete(&mut self, addr: u64, is_write: bool) {
        self.count += 1;
        if is_write {
            self.written += 1;
        }
        self.sum = self.sum.wrapping_add(addr);
    }
}

#[test]
fn handler_mutation_is_visible_after_each_tick() {
    let mut sys = MemorySystem::new(config()).unwrap();
    let mut tally = Tally { count: 0, written: 0, sum: 0 };
    assert!(sys.add(10, false));
    assert!(sys.add(20, true));
    for _ in 0..3 {
        sys.tick(&mut tally);
    }
    // both completions fell due on the third tick and were counted
    // before that tick returned
    assert_eq!(tally.count, 2);
    assert_eq!(tally.written, 1);
    assert_eq!(tally.sum, 30);
    sys.tick(&mut tally);
    assert_eq!(tally.count, 2, "an event was delivered twice");
}

#[test]
fn zero_latency_config_is_rejected() {
    let cfg = Config { latency: 0, ..config() };
    match MemorySystem::new(cfg) {
        Ok(_) => panic!("engine accepted a zero-latency configuration"),
        Err(e) => assert_eq!(e, ConfigError::ZeroLatency),
    }
}

#[test]
fn slot_brackets_a_tick() {
    let mut slot = CallbackSlot::new();
    assert_eq!(slot.state(), SlotState::Invalid);
    slot.install();
    assert_eq!(slot.state(), SlotState::Active);
    slot.clear();
    assert_eq!(slot.state(), SlotState::Invalid);
}

#[test]
fn event_log_records_in_order() {
    let mut log = EventLog::new();
    assert!(log.events().is_empty());
    log.on_complete(1, true);
    log.on_complete(2, false);
    assert_eq!(log.events().len(), 2);
    assert_eq!(log.events()[0], CompletionEvent { addr: 1, is_write: true });
    assert_eq!(log.events()[1], CompletionEvent { addr: 2, is_write: false });
}

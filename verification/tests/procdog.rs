use omnitrace::procdog::events::{ProcDogEvent, ProcDogMask};
use omnitrace::procdog::{
    collect_pids, difference, parse_listing, ProcBackend, ProcDog, ProcDogConfig,
};
use std::sync::{Arc, Mutex};

/// A backend that answers what it is told to answer.
#[derive(Clone)]
struct Scripted {
    answer: Arc<Mutex<Option<Vec<(i32, String)>>>>,
}

impl Scripted {
    fn new() -> Self {
        Scripted { answer: Arc::new(Mutex::new(Some(Vec::new()))) }
    }

    fn set(&self, list: &[(i32, &str)]) {
        *self.answer.lock().unwrap() = Some(procs(list));
    }

    fn fail(&self) {
        *self.answer.lock().unwrap() = None;
    }
}

impl ProcBackend for Scripted {
    fn list(&self) -> Option<Vec<(i32, String)>> {
        self.answer.lock().unwrap().clone()
    }
}

fn procs(list: &[(i32, &str)]) -> Vec<(i32, String)> {
    list.iter().map(|(pid, name)| (*pid, name.to_string())).collect()
}

#[test]
fn appear_then_disappear() {
    let mut dog = ProcDog::new(None);
    dog.watch("perl");
    assert_eq!(dog.prime_with(Some(&procs(&[]))), vec![]);

    let events = dog.tick_with(Some(&procs(&[(100, "perl")])));
    assert_eq!(events, vec![ProcDogEvent::Appeared { name: "perl".to_string(), pid: 100 }]);

    let events = dog.tick_with(Some(&procs(&[])));
    assert_eq!(events, vec![ProcDogEvent::Disappeared { name: "perl".to_string(), pid: 100 }]);

    assert_eq!(dog.tick_with(Some(&procs(&[]))), vec![]);
}

#[test]
fn appear_then_disappear_through_a_backend() {
    let backend = Scripted::new();
    let mut dog = ProcDog::new(None);
    dog.set_backend(backend.clone());
    dog.watch("perl");
    assert_eq!(dog.prime(), vec![]);

    backend.set(&[(100, "perl")]);
    assert_eq!(dog.tick_once(), vec![ProcDogEvent::Appeared { name: "perl".to_string(), pid: 100 }]);
    assert_eq!(dog.tick_once(), vec![]);

    // a listing that fails skips the tick and keeps what was seen
    backend.fail();
    assert_eq!(dog.tick_once(), vec![]);

    backend.set(&[]);
    assert_eq!(
        dog.tick_once(),
        vec![ProcDogEvent::Disappeared { name: "perl".to_string(), pid: 100 }]
    );
}

#[test]
fn without_a_backend_every_listing_fails() {
    let mut dog = ProcDog::new(Some(ProcDogConfig::default().emit_on_start(true)));
    dog.watch("perl");
    assert_eq!(dog.prime(), vec![]);
    assert_eq!(dog.tick_once(), vec![]);
    let backend = Scripted::new();
    backend.set(&[(1, "perl")]);
    dog.set_backend(backend);
    assert_eq!(dog.tick_once(), vec![ProcDogEvent::Appeared { name: "perl".to_string(), pid: 1 }]);
}

#[test]
fn missing_names_through_a_backend() {
    let backend = Scripted::new();
    backend.set(&[(1, "init")]);
    let mut dog = ProcDog::new(Some(ProcDogConfig::default().emit_on_start(true)));
    dog.set_backend(backend);
    dog.watch("perl");
    assert_eq!(dog.prime(), vec![ProcDogEvent::Missing { name: "perl".to_string() }]);
}

#[test]
fn processes_present_at_priming_are_the_baseline() {
    let mut dog = ProcDog::new(None);
    dog.watch("perl");
    assert_eq!(dog.prime_with(Some(&procs(&[(100, "perl"), (7, "sh")]))), vec![]);
    assert_eq!(dog.tick_with(Some(&procs(&[(100, "perl"), (8, "sh")]))), vec![]);
    let events = dog.tick_with(Some(&procs(&[(101, "perl"), (102, "perl")])));
    assert_eq!(
        events,
        vec![
            ProcDogEvent::Appeared { name: "perl".to_string(), pid: 101 },
            ProcDogEvent::Appeared { name: "perl".to_string(), pid: 102 },
            ProcDogEvent::Disappeared { name: "perl".to_string(), pid: 100 },
        ]
    );
}

#[test]
fn missing_names_are_reported_once_each_at_priming() {
    let mut dog = ProcDog::new(Some(ProcDogConfig::default().emit_on_start(true)));
    dog.watch("perl");
    dog.watch("nginx");
    let events = dog.prime_with(Some(&procs(&[(1, "init")])));
    assert_eq!(
        events,
        vec![
            ProcDogEvent::Missing { name: "perl".to_string() },
            ProcDogEvent::Missing { name: "nginx".to_string() },
        ]
    );
    // a tick reports no missing names
    assert_eq!(dog.tick_with(Some(&procs(&[(1, "init")]))), vec![]);
}

#[test]
fn names_with_a_process_are_not_missing() {
    let mut dog = ProcDog::new(Some(ProcDogConfig::default().emit_on_start(true)));
    dog.watch("perl");
    dog.watch("nginx");
    let events = dog.prime_with(Some(&procs(&[(5, "nginx")])));
    assert_eq!(events, vec![ProcDogEvent::Missing { name: "perl".to_string() }]);
}

#[test]
fn missing_names_are_not_reported_unless_asked_for() {
    let mut dog = ProcDog::new(None);
    dog.watch("perl");
    assert_eq!(dog.prime_with(Some(&procs(&[]))), vec![]);
}

#[test]
fn an_ignored_name_is_never_observed() {
    let mut dog = ProcDog::new(Some(ProcDogConfig::default().emit_on_start(true)));
    dog.watch("perl");
    dog.watch("sh");
    dog.ignore("perl");
    let events = dog.prime_with(Some(&procs(&[])));
    assert_eq!(events, vec![ProcDogEvent::Missing { name: "sh".to_string() }]);
    let events = dog.tick_with(Some(&procs(&[(100, "perl"), (200, "sh")])));
    assert_eq!(events, vec![ProcDogEvent::Appeared { name: "sh".to_string(), pid: 200 }]);
    let events = dog.tick_with(Some(&procs(&[])));
    assert_eq!(events, vec![ProcDogEvent::Disappeared { name: "sh".to_string(), pid: 200 }]);
}

#[test]
fn a_failed_listing_skips_the_tick() {
    let mut dog = ProcDog::new(None);
    dog.watch("perl");
    dog.prime_with(Some(&procs(&[(100, "perl")])));
    assert_eq!(dog.tick_with(None), vec![]);
    // the state before the failure still counts
    assert_eq!(dog.tick_with(Some(&procs(&[(100, "perl")]))), vec![]);
    assert_eq!(
        dog.tick_with(Some(&procs(&[]))),
        vec![ProcDogEvent::Disappeared { name: "perl".to_string(), pid: 100 }]
    );
}

#[test]
fn a_failed_priming_leaves_no_baseline() {
    let mut dog = ProcDog::new(Some(ProcDogConfig::default().emit_on_start(true)));
    dog.watch("perl");
    assert_eq!(dog.prime_with(None), vec![]);
    assert_eq!(
        dog.tick_with(Some(&procs(&[(100, "perl")]))),
        vec![ProcDogEvent::Appeared { name: "perl".to_string(), pid: 100 }]
    );
}

#[test]
fn names_are_handled_in_the_order_of_the_watch_list() {
    let mut dog = ProcDog::new(None);
    dog.watch("b");
    dog.watch("a");
    dog.watch("b");
    dog.prime_with(Some(&procs(&[])));
    let events = dog.tick_with(Some(&procs(&[(1, "a"), (2, "b"), (1, "a")])));
    assert_eq!(
        events,
        vec![
            ProcDogEvent::Appeared { name: "b".to_string(), pid: 2 },
            ProcDogEvent::Appeared { name: "a".to_string(), pid: 1 },
        ]
    );
}

#[test]
fn pids_are_collected_once_each() {
    let l = procs(&[(3, "x"), (1, "y"), (3, "x"), (2, "x"), (1, "x")]);
    assert_eq!(collect_pids(&l, "x"), vec![3, 2, 1]);
    assert_eq!(collect_pids(&l, "y"), vec![1]);
    assert_eq!(collect_pids(&l, "z"), Vec::<i32>::new());
    assert_eq!(difference(&vec![1, 2, 3, 4], &vec![2, 4, 5]), vec![1, 3]);
    assert_eq!(difference(&vec![], &vec![1]), Vec::<i32>::new());
}

#[test]
fn procdog_config_defaults_and_setters() {
    let c = ProcDogConfig::default();
    assert_eq!(c.get_interval(), 1000);
    assert!(!c.get_emit_on_start());
    let c = c.interval(250).emit_on_start(true);
    assert_eq!(c.get_interval(), 250);
    assert!(c.get_emit_on_start());
    let dog = ProcDog::new(Some(c));
    assert_eq!(dog.get_config().get_interval(), 250);
    assert_eq!(ProcDog::new(None).get_config().get_interval(), 1000);
}

#[test]
fn procdog_event_masks() {
    let a = ProcDogEvent::Appeared { name: "x".to_string(), pid: 1 };
    let d = ProcDogEvent::Disappeared { name: "x".to_string(), pid: 1 };
    let m = ProcDogEvent::Missing { name: "x".to_string() };
    assert_eq!(a.mask().bits(), 0b0001);
    assert_eq!(d.mask().bits(), 0b0010);
    assert_eq!(m.mask().bits(), 0b0100);
    assert_eq!(ProcDogMask::appeared().union(ProcDogMask::missing()).bits(), 0b0101);
    assert_eq!(ProcDogMask::disappeared().bits(), 0b0010);
}

#[test]
fn a_process_list_is_read_line_by_line() {
    let text = "    1 init\n  100 perl\n42 sh -c x\nbroken\n\n-7 neg\n2147483647 big\n2147483648 huge\n";
    assert_eq!(
        parse_listing(text),
        procs(&[(1, "init"), (100, "perl"), (42, "sh"), (2147483647, "big")])
    );
    assert_eq!(parse_listing(""), procs(&[]));
}

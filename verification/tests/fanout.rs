use climbhub::repositories::common::{FetchError, Identifiable, Manager, Method, Request};
use climbhub::repositories::config::{Config, Source};
use climbhub::repositories::dispatch::{absorb, Dispatch, Outcome, SourceError};
use climbhub::repositories::fanout::{FanOut, CONCURRENT_REQUESTS};

#[derive(Debug, Clone, PartialEq)]
struct Item {
    id: String,
}

impl Identifiable for Item {
    fn id(&mut self) -> &mut String {
        &mut self.id
    }
}

fn registry(n: u16) -> Config {
    let mut sources = Vec::new();
    for i in 0..n {
        sources.push(Source {
            id: i + 1,
            name: format!("Source {}", i + 1),
            url: format!("http://s{}", i + 1),
        });
    }
    Config { sources }
}

#[test]
fn the_width_of_the_dispatcher_is_ten() {
    assert_eq!(CONCURRENT_REQUESTS, 10);
}

#[test]
fn fan_out_of_width_zero_is_refused() {
    assert!(FanOut::new(5, 0).is_none());
    assert!(FanOut::new(0, 0).is_none());
    assert!(FanOut::new(0, 1).is_some());
}

#[test]
fn fan_out_starts_in_order_up_to_the_width() {
    let mut fan = FanOut::new(5, 2).unwrap();
    assert_eq!(fan.in_flight(), 0);
    assert!(!fan.is_done());
    assert_eq!(fan.start(), Some(0));
    assert_eq!(fan.start(), Some(1));
    assert_eq!(fan.in_flight(), 2);
    assert_eq!(fan.start(), None);
    assert_eq!(fan.in_flight(), 2);
    assert!(fan.complete());
    assert_eq!(fan.in_flight(), 1);
    assert_eq!(fan.start(), Some(2));
    assert_eq!(fan.start(), None);
    assert!(fan.complete());
    assert!(fan.complete());
    assert_eq!(fan.in_flight(), 0);
    assert!(!fan.complete());
    assert_eq!(fan.start(), Some(3));
    assert_eq!(fan.start(), Some(4));
    assert_eq!(fan.start(), None);
    assert!(!fan.is_done());
    assert!(fan.complete());
    assert!(fan.complete());
    assert!(fan.is_done());
    assert_eq!(fan.start(), None);
    assert!(!fan.complete());
}

#[test]
fn fan_out_never_has_more_under_way_than_its_width() {
    for width in 1..5usize {
        for total in 0..12usize {
            let mut fan = FanOut::new(total, width).unwrap();
            let mut most = 0;
            let mut step = 0;
            while !fan.is_done() {
                let mut started = false;
                while fan.start().is_some() {
                    started = true;
                    assert!(fan.in_flight() <= width);
                    if fan.in_flight() > most {
                        most = fan.in_flight();
                    }
                }
                assert!(started || fan.in_flight() > 0);
                assert!(fan.complete());
                if step % 3 == 0 && fan.in_flight() > 0 {
                    assert!(fan.complete());
                }
                step += 1;
            }
            assert_eq!(most, if total < width { total } else { width });
            assert_eq!(fan.in_flight(), 0);
        }
    }
}

#[test]
fn standard_fan_out_has_the_width_of_the_dispatcher() {
    let mut fan = FanOut::standard(25);
    let mut started = 0;
    while fan.start().is_some() {
        started += 1;
    }
    assert_eq!(started, CONCURRENT_REQUESTS);
    assert_eq!(fan.in_flight(), CONCURRENT_REQUESTS);
}

#[test]
fn absorb_takes_records_or_one_error() {
    let mut records = vec![Item { id: "a".to_string() }];
    let mut errors = vec![];
    absorb(
        &mut records,
        &mut errors,
        Outcome { source_id: 1, result: Ok(vec![Item { id: "b".to_string() }]) },
    );
    absorb(&mut records, &mut errors, Outcome { source_id: 2, result: Err(FetchError::Serialization) });
    absorb(&mut records, &mut errors, Outcome { source_id: 3, result: Ok(vec![]) });
    assert_eq!(records, vec![Item { id: "a".to_string() }, Item { id: "b".to_string() }]);
    assert_eq!(errors, vec![SourceError { source_id: 2, error: FetchError::Serialization }]);
}

#[test]
fn dispatch_with_more_sources_than_the_width_queues_the_rest() {
    let manager = Manager::<Item>::new(registry(13));
    let mut dispatch = manager.dispatch("places");
    let mut out = Vec::new();
    while let Some(req) = dispatch.next_request() {
        out.push(req);
        assert!(dispatch.in_flight() <= CONCURRENT_REQUESTS);
    }
    assert_eq!(out.len(), 10);
    assert_eq!(dispatch.in_flight(), 10);
    for (i, req) in out.iter().enumerate() {
        assert_eq!(req.method, Method::Get);
        assert_eq!(req.source_id, i as u16 + 1);
        assert_eq!(req.url, format!("http://s{}/places", i + 1));
    }
    assert!(dispatch.absorb(1, Ok(vec![Item { id: "0001-00000001".to_string() }])));
    assert_eq!(dispatch.in_flight(), 9);
    let next = dispatch.next_request().unwrap();
    assert_eq!(next.source_id, 11);
    assert!(dispatch.next_request().is_none());
    let mut done: u16 = 1;
    while !dispatch.is_done() {
        assert!(dispatch.absorb(done + 1, Err(FetchError::Networking)));
        done += 1;
        while dispatch.next_request().is_some() {
            assert!(dispatch.in_flight() <= CONCURRENT_REQUESTS);
        }
    }
    assert_eq!(done, 13);
    assert_eq!(dispatch.in_flight(), 0);
    assert!(!dispatch.absorb(1, Ok(vec![])));
    let (records, errors) = dispatch.finish();
    assert_eq!(records, vec![Item { id: "0001-00000001".to_string() }]);
    assert_eq!(errors.len(), 12);
    for (i, e) in errors.iter().enumerate() {
        assert_eq!(*e, SourceError { source_id: i as u16 + 2, error: FetchError::Networking });
    }
}

#[test]
fn dispatch_merges_in_the_order_of_arrival() {
    let manager = Manager::<Item>::new(registry(3));
    let mut dispatch = manager.dispatch("routes");
    assert!(!dispatch.absorb(1, Ok(vec![Item { id: "x".to_string() }])));
    assert!(!dispatch.asked(1));
    assert!(dispatch.next_request().is_some());
    assert!(dispatch.next_request().is_some());
    assert!(dispatch.next_request().is_some());
    assert!(dispatch.next_request().is_none());
    assert!(dispatch.asked(1) && dispatch.asked(2) && dispatch.asked(3) && !dispatch.asked(4));
    assert!(!dispatch.absorb(4, Err(FetchError::Networking)));
    assert!(dispatch
        .absorb(3, Ok(vec![Item { id: "c1".to_string() }, Item { id: "c2".to_string() }])));
    assert!(dispatch.absorb(2, Err(FetchError::Serialization)));
    assert!(!dispatch.is_done());
    assert!(dispatch.absorb(1, Ok(vec![Item { id: "a1".to_string() }])));
    assert!(dispatch.is_done());
    let (records, errors) = dispatch.finish();
    assert_eq!(
        records,
        vec![
            Item { id: "c1".to_string() },
            Item { id: "c2".to_string() },
            Item { id: "a1".to_string() },
        ]
    );
    assert_eq!(errors, vec![SourceError { source_id: 2, error: FetchError::Serialization }]);
}

#[test]
fn dispatch_over_no_source_is_done_at_once() {
    let mut dispatch = Dispatch::<Item>::new(Vec::<Request>::new());
    assert!(dispatch.is_done());
    assert!(dispatch.next_request().is_none());
    let (records, errors) = dispatch.finish();
    assert!(records.is_empty());
    assert!(errors.is_empty());
}

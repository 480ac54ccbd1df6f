use dns_cache::dns_lru::{DnsLru, LruValue, TtlConfig};
use dns_cache::error::{ProtoError, ProtoErrorKind, ResponseCode};
use dns_cache::lookup::Lookup;
use dns_cache::rr::{Query, RData, Record, RecordType, A};

#[test]
fn test_is_current() {
    let now: u64 = 0;
    let not_the_future: u64 = now + 4;
    let future: u64 = now + 5;
    let past_the_future: u64 = now + 6;

    let value = LruValue {
        lookup: Err(ProtoError::new(ProtoErrorKind::Message(String::from("test error")))),
        valid_until: future,
    };

    assert!(value.is_current(now));
    assert!(value.is_current(not_the_future));
    assert!(value.is_current(future));
    assert!(!value.is_current(past_the_future));
}

#[test]
fn test_lookup_uses_positive_min_ttl() {
    let now: u64 = 0;

    let name = String::from("www.example.com.");
    let query = Query::query(name.clone(), RecordType::A);
    // record should have TTL of 1 second.
    let ips_ttl = vec![(Record::from_rdata(name.clone(), 1, RData::A(A::new(127, 0, 0, 1))), 1)];
    let ips = [RData::A(A::new(127, 0, 0, 1))];

    // configure the cache with a minimum TTL of 2 seconds.
    let ttls = TtlConfig { positive_min_ttl: Some(2), ..TtlConfig::default() };
    let mut lru = DnsLru::new(1, ttls);

    let rc_ips = lru.insert(query.clone(), ips_ttl, now);
    assert_eq!(*rc_ips.records()[0].data(), ips[0]);
    // the returned lookup should use the cache's min TTL, since the
    // query's TTL was below the minimum.
    assert_eq!(rc_ips.valid_until(), now + 2);

    // record should have TTL of 3 seconds.
    let ips_ttl = vec![(Record::from_rdata(name, 3, RData::A(A::new(127, 0, 0, 1))), 3)];

    let rc_ips = lru.insert(query, ips_ttl, now);
    assert_eq!(*rc_ips.records()[0].data(), ips[0]);
    // the returned lookup should use the record's TTL, since it's
    // greater than the cache's minimum.
    assert_eq!(rc_ips.valid_until(), now + 3);
}

#[test]
fn test_error_uses_negative_min_ttl() {
    let now: u64 = 0;

    let name = Query::query(String::from("www.example.com."), RecordType::A);

    // configure the cache with a minimum TTL of 2 seconds.
    let ttls = TtlConfig { negative_min_ttl: Some(2), ..TtlConfig::default() };
    let mut lru = DnsLru::new(1, ttls);

    // neg response should have TTL of 1 seconds.
    let err = ProtoErrorKind::NoRecordsFound {
        query: name.clone(),
        negative_ttl: Some(1),
        response_code: ResponseCode::NoError,
        trusted: false,
    };
    let nx_error = lru.negative(name.clone(), ProtoError::new(err), now);
    match nx_error.kind() {
        &ProtoErrorKind::NoRecordsFound { negative_ttl, .. } => {
            let valid_until = negative_ttl.expect("resolve error should have a deadline");
            // the error's `valid_until` field should have been limited to 2 seconds.
            assert_eq!(valid_until, 2);
        }
        other => panic!("expected ProtoErrorKind::NoRecordsFound, got {:?}", other),
    }

    // neg response should have TTL of 3 seconds.
    let err = ProtoErrorKind::NoRecordsFound {
        query: name.clone(),
        negative_ttl: Some(3),
        response_code: ResponseCode::NoError,
        trusted: false,
    };
    let nx_error = lru.negative(name, ProtoError::new(err), now);
    match nx_error.kind() {
        &ProtoErrorKind::NoRecordsFound { negative_ttl, .. } => {
            let negative_ttl = negative_ttl.expect("ProtoError should have a deadline");
            // the error's `valid_until` field should not have been limited, as it was
            // over the min TTL.
            assert_eq!(negative_ttl, 3);
        }
        other => panic!("expected ProtoErrorKind::NoRecordsFound, got {:?}", other),
    }
}

#[test]
fn test_lookup_uses_positive_max_ttl() {
    let now: u64 = 0;

    let name = String::from("www.example.com.");
    let query = Query::query(name.clone(), RecordType::A);
    // record should have TTL of 62 seconds.
    let ips_ttl = vec![(Record::from_rdata(name.clone(), 62, RData::A(A::new(127, 0, 0, 1))), 62)];
    let ips = [RData::A(A::new(127, 0, 0, 1))];

    // configure the cache with a maximum TTL of 60 seconds.
    let ttls = TtlConfig { positive_max_ttl: Some(60), ..TtlConfig::default() };
    let mut lru = DnsLru::new(1, ttls);

    let rc_ips = lru.insert(query.clone(), ips_ttl, now);
    assert_eq!(*rc_ips.records()[0].data(), ips[0]);
    // the returned lookup should use the cache's max TTL, since the
    // query's TTL was above the maximum.
    assert_eq!(rc_ips.valid_until(), now + 60);

    // record should have TTL of 59 seconds.
    let ips_ttl = vec![(Record::from_rdata(name, 59, RData::A(A::new(127, 0, 0, 1))), 59)];

    let rc_ips = lru.insert(query, ips_ttl, now);
    assert_eq!(*rc_ips.records()[0].data(), ips[0]);
    // the returned lookup should use the record's TTL, since it's
    // below than the cache's maximum.
    assert_eq!(rc_ips.valid_until(), now + 59);
}

#[test]
fn test_error_uses_negative_max_ttl() {
    let now: u64 = 0;

    let name = Query::query(String::from("www.example.com."), RecordType::A);

    // configure the cache with a maximum TTL of 60 seconds.
    let ttls = TtlConfig { negative_max_ttl: Some(60), ..TtlConfig::default() };
    let mut lru = DnsLru::new(1, ttls);

    // neg response should have TTL of 62 seconds.
    let err = ProtoErrorKind::NoRecordsFound {
        query: name.clone(),
        negative_ttl: Some(62),
        response_code: ResponseCode::NoError,
        trusted: false,
    };
    let nx_error = lru.negative(name.clone(), ProtoError::new(err), now);
    match nx_error.kind() {
        &ProtoErrorKind::NoRecordsFound { negative_ttl, .. } => {
            let negative_ttl = negative_ttl.expect("resolve error should have a deadline");
            // the error's `valid_until` field should have been limited to 60 seconds.
            assert_eq!(negative_ttl, 60);
        }
        other => panic!("expected ProtoErrorKind::NoRecordsFound, got {:?}", other),
    }

    // neg response should have TTL of 59 seconds.
    let err = ProtoErrorKind::NoRecordsFound {
        query: name.clone(),
        negative_ttl: Some(59),
        response_code: ResponseCode::NoError,
        trusted: false,
    };
    let nx_error = lru.negative(name, ProtoError::new(err), now);
    match nx_error.kind() {
        &ProtoErrorKind::NoRecordsFound { negative_ttl, .. } => {
            let negative_ttl = negative_ttl.expect("resolve error should have a deadline");
            // the error's `valid_until` field should not have been limited, as it was
            // under the max TTL.
            assert_eq!(negative_ttl, 59);
        }
        other => panic!("expected ProtoErrorKind::NoRecordsFound, got {:?}", other),
    }
}

#[test]
fn test_insert() {
    let now: u64 = 0;

    let name = String::from("www.example.com.");
    let query = Query::query(name.clone(), RecordType::A);
    let ips_ttl = vec![(Record::from_rdata(name, 1, RData::A(A::new(127, 0, 0, 1))), 1)];
    let ips = [RData::A(A::new(127, 0, 0, 1))];
    let mut lru = DnsLru::new(1, TtlConfig::default());

    let rc_ips = lru.insert(query.clone(), ips_ttl, now);
    assert_eq!(*rc_ips.records()[0].data(), ips[0]);

    let rc_ips: Lookup = lru.get(&query, now).unwrap().expect("records should exist");
    assert_eq!(*rc_ips.records()[0].data(), ips[0]);
}

#[test]
fn test_update_ttl() {
    let now: u64 = 0;

    let name = String::from("www.example.com.");
    let query = Query::query(name.clone(), RecordType::A);
    let ips_ttl = vec![(Record::from_rdata(name, 10, RData::A(A::new(127, 0, 0, 1))), 10)];
    let ips = [RData::A(A::new(127, 0, 0, 1))];
    let mut lru = DnsLru::new(1, TtlConfig::default());

    let rc_ips = lru.insert(query.clone(), ips_ttl, now);
    assert_eq!(*rc_ips.records()[0].data(), ips[0]);

    let ttl = lru
        .get(&query, now + 2)
        .unwrap()
        .expect("records should exist")
        .records()[0]
        .ttl();
    assert!(ttl <= 8);
}

#[test]
fn test_insert_ttl() {
    let now: u64 = 0;
    let name = String::from("www.example.com.");
    let query = Query::query(name.clone(), RecordType::A);
    // TTL should be 1
    let ips_ttl = vec![
        (Record::from_rdata(name.clone(), 1, RData::A(A::new(127, 0, 0, 1))), 1),
        (Record::from_rdata(name, 2, RData::A(A::new(127, 0, 0, 2))), 2),
    ];
    let ips = vec![RData::A(A::new(127, 0, 0, 1)), RData::A(A::new(127, 0, 0, 2))];
    let mut lru = DnsLru::new(1, TtlConfig::default());

    lru.insert(query.clone(), ips_ttl, now);

    // still valid
    let rc_ips = lru.get(&query, now + 1).unwrap().expect("records should exist");
    assert_eq!(*rc_ips.records()[0].data(), ips[0]);

    // 2 should be one too far
    let rc_ips = lru.get(&query, now + 2);
    assert!(rc_ips.is_none());
}

#[test]
fn test_insert_positive_min_ttl() {
    let now: u64 = 0;
    let name = String::from("www.example.com.");
    let query = Query::query(name.clone(), RecordType::A);
    // TTL should be 1
    let ips_ttl = vec![
        (Record::from_rdata(name.clone(), 1, RData::A(A::new(127, 0, 0, 1))), 1),
        (Record::from_rdata(name, 2, RData::A(A::new(127, 0, 0, 2))), 2),
    ];
    let ips = vec![RData::A(A::new(127, 0, 0, 1)), RData::A(A::new(127, 0, 0, 2))];

    // this cache should override the TTL of 1 seconds with the configured
    // minimum TTL of 3 seconds.
    let ttls = TtlConfig { positive_min_ttl: Some(3), ..TtlConfig::default() };
    let mut lru = DnsLru::new(1, ttls);
    lru.insert(query.clone(), ips_ttl, now);

    // still valid
    let rc_ips = lru.get(&query, now + 1).unwrap().expect("records should exist");
    for (rc_ip, ip) in rc_ips.records().iter().zip(ips.iter()) {
        assert_eq!(rc_ip.data(), ip, "after 1 second");
    }

    let rc_ips = lru.get(&query, now + 2).unwrap().expect("records should exist");
    for (rc_ip, ip) in rc_ips.records().iter().zip(ips.iter()) {
        assert_eq!(rc_ip.data(), ip, "after 2 seconds");
    }

    let rc_ips = lru.get(&query, now + 3).unwrap().expect("records should exist");
    for (rc_ip, ip) in rc_ips.records().iter().zip(ips.iter()) {
        assert_eq!(rc_ip.data(), ip, "after 3 seconds");
    }

    // after 4 seconds, the records should be invalid.
    let rc_ips = lru.get(&query, now + 4);
    assert!(rc_ips.is_none());
}

#[test]
fn test_insert_positive_max_ttl() {
    let now: u64 = 0;
    let name = String::from("www.example.com.");
    let query = Query::query(name.clone(), RecordType::A);
    // TTL should be 500
    let ips_ttl = vec![
        (Record::from_rdata(name.clone(), 400, RData::A(A::new(127, 0, 0, 1))), 400),
        (Record::from_rdata(name, 500, RData::A(A::new(127, 0, 0, 2))), 500),
    ];
    let ips = vec![RData::A(A::new(127, 0, 0, 1)), RData::A(A::new(127, 0, 0, 2))];

    // this cache should override the TTL of 500 seconds with the configured
    // maximum TTL of 2 seconds.
    let ttls = TtlConfig { positive_max_ttl: Some(2), ..TtlConfig::default() };
    let mut lru = DnsLru::new(1, ttls);
    lru.insert(query.clone(), ips_ttl, now);

    // still valid
    let rc_ips = lru.get(&query, now + 1).unwrap().expect("records should exist");
    for (rc_ip, ip) in rc_ips.records().iter().zip(ips.iter()) {
        assert_eq!(rc_ip.data(), ip, "after 1 second");
    }

    let rc_ips = lru.get(&query, now + 2).unwrap().expect("records should exist");
    for (rc_ip, ip) in rc_ips.records().iter().zip(ips.iter()) {
        assert_eq!(rc_ip.data(), ip, "after 2 seconds");
    }

    // after 3 seconds, the records should be invalid.
    let rc_ips = lru.get(&query, now + 3);
    assert!(rc_ips.is_none());
}

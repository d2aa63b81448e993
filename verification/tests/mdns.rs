use telemetry_node::mdns::{
    advertised_services, c_string, status_result, AdvertiserState, EspMdns, MdnsError,
    MdnsService, ServiceRecord, ESP_OK, HTTP_PORT,
};

const ESP_FAIL: i32 = -1;
const ESP_ERR_INVALID_ARG: i32 = 0x102;

fn http_service() -> MdnsService {
    MdnsService {
        service_type: "_http".into(),
        protocol: "_tcp".into(),
        port: 80,
        ..Default::default()
    }
}

#[test]
fn status_result_tells_ok_from_errors() {
    assert_eq!(ESP_OK, 0);
    assert_eq!(status_result(ESP_OK), Ok(()));
    assert_eq!(status_result(ESP_FAIL), Err(MdnsError::Subsystem(-1)));
    assert_eq!(status_result(0x103), Err(MdnsError::Subsystem(0x103)));
    assert_eq!(status_result(i32::MAX), Err(MdnsError::Subsystem(i32::MAX)));
    assert_eq!(status_result(i32::MIN), Err(MdnsError::Subsystem(i32::MIN)));
}

#[test]
fn c_string_appends_a_zero() {
    assert_eq!(c_string(""), Ok(vec![0]));
    assert_eq!(c_string("_tcp"), Ok(vec![b'_', b't', b'c', b'p', 0]));
    assert_eq!(c_string("é"), Ok(vec![0xC3, 0xA9, 0]));
}

#[test]
fn c_string_refuses_a_zero_byte() {
    assert_eq!(c_string("\0"), Err(MdnsError::InvalidName));
    assert_eq!(c_string("a\0b"), Err(MdnsError::InvalidName));
    assert_eq!(c_string("ab\0"), Err(MdnsError::InvalidName));
}

#[test]
fn state_starts_without_an_advertiser() {
    let state = AdvertiserState::new();
    assert!(!state.is_live());
}

#[test]
fn create_makes_the_advertiser_live() {
    let mut state = AdvertiserState::new();
    let mut calls = 0;
    let mdns = EspMdns::new(&mut state, || {
        calls += 1;
        ESP_OK
    });
    assert!(mdns.is_ok());
    assert_eq!(calls, 1);
    assert!(state.is_live());
}

#[test]
fn second_create_fails_as_already_active() {
    let mut state = AdvertiserState::new();
    let first = EspMdns::new(&mut state, || ESP_OK).unwrap();
    let mut touched = false;
    let second = EspMdns::new(&mut state, || {
        touched = true;
        ESP_OK
    });
    assert_eq!(second.err(), Some(MdnsError::AlreadyActive));
    assert!(!touched);
    assert!(state.is_live());

    let mut first = first;
    let mut named = None;
    let server = first.server("ESP_1", |name| {
        named = Some(name);
        ESP_OK
    });
    assert!(server.is_ok());
    assert_eq!(named, Some(b"ESP_1\0".to_vec()));
}

#[test]
fn create_succeeds_again_after_release() {
    let mut state = AdvertiserState::new();
    let first = EspMdns::new(&mut state, || ESP_OK).unwrap();
    assert!(EspMdns::new(&mut state, || ESP_OK).is_err());
    let mut freed = 0;
    first.release(&mut state, || freed += 1);
    assert_eq!(freed, 1);
    assert!(!state.is_live());
    let again = EspMdns::new(&mut state, || ESP_OK);
    assert!(again.is_ok());
    assert!(state.is_live());
}

#[test]
fn failed_initialisation_leaves_no_advertiser() {
    let mut state = AdvertiserState::new();
    let r = EspMdns::new(&mut state, || ESP_FAIL);
    assert_eq!(r.err(), Some(MdnsError::Subsystem(ESP_FAIL)));
    assert!(!state.is_live());
    assert!(EspMdns::new(&mut state, || ESP_OK).is_ok());
    assert!(state.is_live());
}

#[test]
fn release_after_failures_frees_the_state() {
    let mut state = AdvertiserState::new();
    let mut mdns = EspMdns::new(&mut state, || ESP_OK).unwrap();
    assert!(mdns.server("host", |_| ESP_FAIL).is_err());
    assert!(mdns.server("bad\0host", |_| ESP_OK).is_err());
    mdns.release(&mut state, || ());
    assert!(!state.is_live());
    assert!(EspMdns::new(&mut state, || ESP_OK).is_ok());
}

#[test]
fn server_hands_the_hostname_as_a_c_string() {
    let mut state = AdvertiserState::new();
    let mut mdns = EspMdns::new(&mut state, || ESP_OK).unwrap();
    let mut seen: Vec<u8> = Vec::new();
    let server = mdns.server("ESP_BC9A78563412", |name| {
        seen = name;
        ESP_OK
    });
    assert!(server.is_ok());
    assert_eq!(seen, b"ESP_BC9A78563412\0".to_vec());
}

#[test]
fn server_propagates_the_status() {
    let mut state = AdvertiserState::new();
    let mut mdns = EspMdns::new(&mut state, || ESP_OK).unwrap();
    let r = mdns.server("host", |_| ESP_ERR_INVALID_ARG);
    assert_eq!(r.err(), Some(MdnsError::Subsystem(ESP_ERR_INVALID_ARG)));
    assert!(state.is_live());
}

#[test]
fn server_refuses_a_hostname_with_a_zero_byte() {
    let mut state = AdvertiserState::new();
    let mut mdns = EspMdns::new(&mut state, || ESP_OK).unwrap();
    let mut called = false;
    let r = mdns.server("ho\0st", |_| {
        called = true;
        ESP_OK
    });
    assert_eq!(r.err(), Some(MdnsError::InvalidName));
    assert!(!called);
}

#[test]
fn default_service_is_empty() {
    let service = MdnsService::default();
    assert_eq!(service.instance_name, None);
    assert_eq!(service.service_type, "");
    assert_eq!(service.protocol, "");
    assert_eq!(service.port, 0);
    assert!(service.txt.is_empty());
}

#[test]
fn record_of_a_service_without_instance_name() {
    let record = ServiceRecord::new(&http_service()).unwrap();
    assert_eq!(record.instance_name, None);
    assert_eq!(record.service_type, b"_http\0".to_vec());
    assert_eq!(record.protocol, b"_tcp\0".to_vec());
    assert_eq!(record.port, 80);
    assert!(record.txt.is_empty());
}

#[test]
fn record_keeps_text_records_in_order() {
    let service = MdnsService {
        instance_name: Some("node".into()),
        service_type: "_prometheus-http".into(),
        protocol: "_tcp".into(),
        port: 9100,
        txt: vec![
            ("path".into(), "/metrics".into()),
            ("b".into(), "".into()),
            ("a".into(), "1".into()),
        ],
    };
    let record = ServiceRecord::new(&service).unwrap();
    assert_eq!(record.instance_name, Some(b"node\0".to_vec()));
    assert_eq!(record.service_type, b"_prometheus-http\0".to_vec());
    assert_eq!(record.protocol, b"_tcp\0".to_vec());
    assert_eq!(record.port, 9100);
    assert_eq!(
        record.txt,
        vec![
            (b"path\0".to_vec(), b"/metrics\0".to_vec()),
            (b"b\0".to_vec(), b"\0".to_vec()),
            (b"a\0".to_vec(), b"1\0".to_vec()),
        ]
    );
}

#[test]
fn record_refuses_a_zero_byte_in_any_string() {
    let mut service = http_service();
    service.instance_name = Some("no\0de".into());
    assert_eq!(ServiceRecord::new(&service).err(), Some(MdnsError::InvalidName));

    let mut service = http_service();
    service.service_type = "\0".into();
    assert_eq!(ServiceRecord::new(&service).err(), Some(MdnsError::InvalidName));

    let mut service = http_service();
    service.protocol = "_tcp\0".into();
    assert_eq!(ServiceRecord::new(&service).err(), Some(MdnsError::InvalidName));

    let mut service = http_service();
    service.txt = vec![("k".into(), "v".into()), ("k\0".into(), "v".into())];
    assert_eq!(ServiceRecord::new(&service).err(), Some(MdnsError::InvalidName));

    let mut service = http_service();
    service.txt = vec![("k".into(), "\0v".into())];
    assert_eq!(ServiceRecord::new(&service).err(), Some(MdnsError::InvalidName));
}

#[test]
fn add_service_publishes_the_record() {
    let mut state = AdvertiserState::new();
    let mut mdns = EspMdns::new(&mut state, || ESP_OK).unwrap();
    let mut server = mdns.server("host", |_| ESP_OK).unwrap();
    let mut published: Vec<(Vec<u8>, Vec<u8>, u16, usize)> = Vec::new();
    for service in advertised_services() {
        let r = server.add_service(service, |record| {
            assert_eq!(record.instance_name, None);
            published.push((record.service_type, record.protocol, record.port, record.txt.len()));
            ESP_OK
        });
        assert_eq!(r, Ok(()));
    }
    assert_eq!(
        published,
        vec![
            (b"_http\0".to_vec(), b"_tcp\0".to_vec(), 80, 0),
            (b"_prometheus-http\0".to_vec(), b"_tcp\0".to_vec(), 80, 0),
        ]
    );
}

#[test]
fn add_service_propagates_the_status() {
    let mut state = AdvertiserState::new();
    let mut mdns = EspMdns::new(&mut state, || ESP_OK).unwrap();
    let mut server = mdns.server("host", |_| ESP_OK).unwrap();
    let r = server.add_service(http_service(), |_| ESP_ERR_INVALID_ARG);
    assert_eq!(r, Err(MdnsError::Subsystem(ESP_ERR_INVALID_ARG)));
    let r = server.add_service(http_service(), |_| ESP_OK);
    assert_eq!(r, Ok(()));
}

#[test]
fn add_service_refuses_a_zero_byte_before_publishing() {
    let mut state = AdvertiserState::new();
    let mut mdns = EspMdns::new(&mut state, || ESP_OK).unwrap();
    let mut server = mdns.server("host", |_| ESP_OK).unwrap();
    let mut service = http_service();
    service.txt = vec![("key".into(), "va\0lue".into())];
    let mut called = false;
    let r = server.add_service(service, |_| {
        called = true;
        ESP_OK
    });
    assert_eq!(r, Err(MdnsError::InvalidName));
    assert!(!called);
}

#[test]
fn advertised_services_are_http_and_metrics() {
    assert_eq!(HTTP_PORT, 80);
    let services = advertised_services();
    assert_eq!(services.len(), 2);
    assert_eq!(services[0].service_type, "_http");
    assert_eq!(services[1].service_type, "_prometheus-http");
    for service in &services {
        assert_eq!(service.instance_name, None);
        assert_eq!(service.protocol, "_tcp");
        assert_eq!(service.port, 80);
        assert!(service.txt.is_empty());
        assert!(ServiceRecord::new(service).is_ok());
    }
}

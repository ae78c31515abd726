use drivers::port_id::PortId;
use drivers::xhci_path::{params_from_captures, Handle, HandleType, PathError, SchemeParameters};
use drivers::xhci_scheme::{EndpointHandleTy, PortReqState};
use drivers::usb::Setup;

fn port(s: &str) -> PortId {
    PortId::from_str(s).unwrap()
}

#[test]
fn scheme_port_files() {
    assert!(matches!(
        SchemeParameters::from_scheme("port1/configure"),
        Ok(SchemeParameters::ConfigureEndpoints(p)) if p == port("1")
    ));
    assert!(matches!(
        SchemeParameters::from_scheme("port1.2/attach"),
        Ok(SchemeParameters::AttachDevice(p)) if p == port("1.2")
    ));
    assert!(matches!(
        SchemeParameters::from_scheme("port3/detach"),
        Ok(SchemeParameters::DetachDevice(p)) if p == port("3")
    ));
    assert!(matches!(
        SchemeParameters::from_scheme("port3/descriptors"),
        Ok(SchemeParameters::PortDesc(p)) if p == port("3")
    ));
    assert!(matches!(
        SchemeParameters::from_scheme("port4/state"),
        Ok(SchemeParameters::PortState(p)) if p == port("4")
    ));
    assert!(matches!(
        SchemeParameters::from_scheme("port4/request"),
        Ok(SchemeParameters::PortReq(p)) if p == port("4")
    ));
    assert!(matches!(
        SchemeParameters::from_scheme("port4/endpoints"),
        Ok(SchemeParameters::Endpoints(p)) if p == port("4")
    ));
}

#[test]
fn scheme_endpoint_files() {
    match SchemeParameters::from_scheme("port2/endpoints/4") {
        Ok(SchemeParameters::Endpoint(p, n, s)) => {
            assert_eq!(p, port("2"));
            assert_eq!(n, 4);
            assert_eq!(s, "root");
        }
        other => panic!("unexpected {:?}", other),
    }
    match SchemeParameters::from_scheme("port1.2/endpoints/3/ctl") {
        Ok(SchemeParameters::Endpoint(p, n, s)) => {
            assert_eq!(p, port("1.2"));
            assert_eq!(n, 3);
            assert_eq!(s, "ctl");
        }
        other => panic!("unexpected {:?}", other),
    }
    // The sub-endpoint pattern is not anchored at the start of the path.
    match SchemeParameters::from_scheme("xport1/endpoints/2/data") {
        Ok(SchemeParameters::Endpoint(p, n, s)) => {
            assert_eq!(p, port("1"));
            assert_eq!(n, 2);
            assert_eq!(s, "data");
        }
        other => panic!("unexpected {:?}", other),
    }
}

#[test]
fn scheme_top_level_and_refusals() {
    assert!(matches!(SchemeParameters::from_scheme(""), Ok(SchemeParameters::TopLevel)));
    assert!(matches!(SchemeParameters::from_scheme("port1"), Err(PathError::NoEntry)));
    assert!(matches!(SchemeParameters::from_scheme("port1/endpoints/300"), Err(PathError::NoEntry)));
    assert!(matches!(SchemeParameters::from_scheme("port0/state"), Err(PathError::NoEntry)));
    assert!(matches!(SchemeParameters::from_scheme("port1/unknown"), Err(PathError::NoEntry)));
    assert!(matches!(SchemeParameters::from_scheme("/port1/state"), Err(PathError::NoEntry)));
}

#[test]
fn captures_decide_the_file() {
    let caps = vec![Some("port5/state".to_string()), Some("5".to_string())];
    assert!(matches!(
        params_from_captures(4, &caps),
        Ok(SchemeParameters::PortState(p)) if p == port("5")
    ));
    assert!(matches!(params_from_captures(4, &vec![Some("x".to_string())]), Err(PathError::NoEntry)));
    let caps = vec![None, Some("1".to_string()), Some("7".to_string()), Some("data".to_string())];
    match params_from_captures(8, &caps) {
        Ok(SchemeParameters::Endpoint(p, n, s)) => {
            assert_eq!((p, n, s.as_str()), (port("1"), 7, "data"));
        }
        other => panic!("unexpected {:?}", other),
    }
    assert!(matches!(params_from_captures(9, &Vec::new()), Ok(SchemeParameters::TopLevel)));
    assert!(matches!(params_from_captures(10, &caps), Err(PathError::NoEntry)));
}

#[test]
fn handle_paths() {
    let p = port("1.2");
    let h = Handle::Endpoint(p, 3, EndpointHandleTy::Ctl);
    assert_eq!(h.to_scheme(), b"port1.2/endpoints/3/ctl".to_vec());
    assert_eq!(Handle::TopLevel(vec![1, 2]).to_scheme(), Vec::<u8>::new());
    assert_eq!(Handle::PortDesc(port("4"), Vec::new()).to_scheme(), b"port4/descriptors".to_vec());
    assert_eq!(Handle::Endpoint(p, 12, EndpointHandleTy::Root(Vec::new())).to_scheme(), b"port1.2/endpoints/12".to_vec());
    assert_eq!(Handle::DetachDevice(p).to_scheme(), b"port1.2/detach".to_vec());
}

#[test]
fn handle_paths_parse_back() {
    let p = port("2.1.3");
    let handles = vec![
        Handle::PortDesc(p, Vec::new()),
        Handle::PortState(p),
        Handle::PortReq(p, PortReqState::Init),
        Handle::Endpoints(p, Vec::new()),
        Handle::ConfigureEndpoints(p),
        Handle::AttachDevice(p),
        Handle::DetachDevice(p),
        Handle::Endpoint(p, 7, EndpointHandleTy::Data),
        Handle::Endpoint(p, 7, EndpointHandleTy::Root(Vec::new())),
    ];
    for h in &handles {
        let path = String::from_utf8(h.to_scheme()).unwrap();
        let params = SchemeParameters::from_scheme(&path).unwrap();
        let same = match (h, &params) {
            (Handle::PortDesc(a, _), SchemeParameters::PortDesc(b)) => a == b,
            (Handle::PortState(a), SchemeParameters::PortState(b)) => a == b,
            (Handle::PortReq(a, _), SchemeParameters::PortReq(b)) => a == b,
            (Handle::Endpoints(a, _), SchemeParameters::Endpoints(b)) => a == b,
            (Handle::ConfigureEndpoints(a), SchemeParameters::ConfigureEndpoints(b)) => a == b,
            (Handle::AttachDevice(a), SchemeParameters::AttachDevice(b)) => a == b,
            (Handle::DetachDevice(a), SchemeParameters::DetachDevice(b)) => a == b,
            (Handle::Endpoint(a, n, EndpointHandleTy::Data), SchemeParameters::Endpoint(b, m, s)) => a == b && n == m && s == "data",
            (Handle::Endpoint(a, n, EndpointHandleTy::Root(_)), SchemeParameters::Endpoint(b, m, s)) => a == b && n == m && s == "root",
            _ => false,
        };
        assert!(same, "{} parsed as {:?}", path, params);
    }
    assert!(matches!(SchemeParameters::from_scheme(""), Ok(SchemeParameters::TopLevel)));
}

#[test]
fn handle_kinds_and_sizes() {
    let p = port("1");
    let setup = Setup { kind: 0xA1, request: 1, value: 0, index: 0, length: 8 };
    assert_eq!(Handle::TopLevel(vec![0; 5]).get_handle_type(), HandleType::Directory);
    assert_eq!(Handle::TopLevel(vec![0; 5]).get_buf_len(), Some(5));
    assert_eq!(Handle::PortDesc(p, vec![0; 18]).get_handle_type(), HandleType::File);
    assert_eq!(Handle::PortDesc(p, vec![0; 18]).get_buf_len(), Some(18));
    assert_eq!(Handle::PortState(p).get_handle_type(), HandleType::Character);
    assert_eq!(Handle::PortState(p).get_buf_len(), None);
    let waiting = Handle::PortReq(p, PortReqState::WaitingForDeviceBytes(8, setup));
    assert_eq!(waiting.get_handle_type(), HandleType::Character);
    assert_eq!(waiting.get_buf_len(), Some(8));
    assert_eq!(Handle::PortReq(p, PortReqState::Init).get_buf_len(), None);
    assert_eq!(Handle::Endpoint(p, 1, EndpointHandleTy::Root(vec![0; 3])).get_handle_type(), HandleType::Directory);
    assert_eq!(Handle::Endpoint(p, 1, EndpointHandleTy::Ctl).get_buf_len(), None);
}

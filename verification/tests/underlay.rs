use kira_r2kad::underlay::information_base::UnderlayInformationBase;
use kira_r2kad::underlay::observer::{handle_link_message, handle_request, HandleRequest, HandleResponse, LinkAttribute};
use kira_r2kad::underlay::{
    is_unicast_link_local, same_mac, Interface, UnderlayNeighbor, UnderlayNeighborInterfaceDownError,
    UnderlayNeighborUpdate,
};

const LL_IPV6: u128 = 0xfe80_0000_0000_0000_0000_0000_0000_0001;
const LL_IPV6_2: u128 = 0xfe80_0000_0000_0000_0000_0000_0000_0002;

#[test]
fn empty_default() {
    let ulnib = UnderlayInformationBase::default();
    assert!(ulnib.get_available().iter().next().is_none(), "no available interfaces");

    let UnderlayInformationBase { neighbors, neighbor_ids, interfaces, .. } = ulnib;
    assert!(neighbors.is_empty(), "no neighbors");
    assert!(neighbor_ids.is_empty(), "no ids");
    assert!(interfaces.is_empty(), "no interfaces");
}

#[test]
fn avoid_interface_down() {
    let mut ulnib = UnderlayInformationBase::default();

    let down_interface = 42;
    assert_eq!(
        ulnib.register_neighbor(down_interface, LL_IPV6),
        Err(UnderlayNeighborInterfaceDownError(down_interface))
    );
}

#[test]
fn correct_next_ulnid() {
    let mut ulnib = UnderlayInformationBase::default();

    // insert link with matching ID first
    let interface_id = 42;
    let interface = Interface::new(interface_id, [0; 6], [0; 6]);
    ulnib.interfaces.insert(interface_id, interface);

    // set next id to live id
    let expected_ulnid = ulnib.next_ulnid;
    let ulnid = ulnib.register_neighbor(interface_id, LL_IPV6).unwrap();
    assert_eq!(ulnid, expected_ulnid, "ulnid should be next ulnid");
}

#[test]
fn interface() {
    let mut ulnib = UnderlayInformationBase::default();
    let interface_id = 42;
    let interface = Interface::new(interface_id, [0; 6], [0; 6]);

    assert!(ulnib.interface_down(&interface_id).is_none(), "interface does not exist prior");

    // interface up
    assert!(ulnib.interface_up(interface), "is a fresh interface");
    assert_eq!(
        ulnib.get_available().iter().next(),
        Some(&interface_id),
        "interface should be available on up"
    );
    assert_eq!(
        ulnib.get_available().iter().next(),
        Some(&interface_id),
        "interface should be available on up"
    );

    // interface down
    let mut affected_neighbors = ulnib.interface_down(&interface_id).expect("exists prior").into_iter();
    assert_eq!(affected_neighbors.next(), None, "no neighbor down");
}

#[test]
fn link_local_addresses_and_macs() {
    assert!(is_unicast_link_local(LL_IPV6));
    assert!(is_unicast_link_local(0xfebf_ffff_ffff_ffff_ffff_ffff_ffff_ffff));
    assert!(!is_unicast_link_local(0xfec0_0000_0000_0000_0000_0000_0000_0001));
    assert!(!is_unicast_link_local(0x2001_0db8_0000_0000_0000_0000_0000_0001));
    assert!(same_mac(&[1, 2, 3, 4, 5, 6], &[1, 2, 3, 4, 5, 6]));
    assert!(!same_mac(&[1, 2, 3, 4, 5, 6], &[1, 2, 3, 4, 5, 7]));
    assert_eq!(
        UnderlayNeighborInterfaceDownError(7).message(),
        "Interface 7 that is used by the underlay neighbor is down"
    );
}

#[test]
fn registered_neighbor_keeps_its_id_and_is_informed() {
    let mut ulnib = UnderlayInformationBase::default();
    assert!(ulnib.interface_up(Interface::new(3, [1, 1, 1, 1, 1, 1], [0xff; 6])));
    let a = ulnib.register_neighbor(3, LL_IPV6).unwrap();
    let b = ulnib.register_neighbor(3, LL_IPV6_2).unwrap();
    assert_eq!((a, b), (1, 2));
    assert_eq!(ulnib.register_neighbor(3, LL_IPV6), Ok(1));
    assert_eq!(ulnib.next_ulnid, 3);
    let info = ulnib.get_information(&2).unwrap();
    assert_eq!(info.interface_id, 3);
    assert_eq!(info.ll_ipv6, LL_IPV6_2);
    assert_eq!(info.src_mac, [1; 6]);
    assert_eq!(info.broadcast_mac, [0xff; 6]);
    assert!(ulnib.get_information(&9).is_none());
    assert_eq!(
        ulnib.unregister_neighbor(&1),
        Some(UnderlayNeighbor { ll_ipv6: LL_IPV6, interface_id: 3 })
    );
    assert!(ulnib.get_information(&1).is_none());
    assert_eq!(ulnib.unregister_neighbor(&1), None);
    // Registered again, the neighbor gets a new id.
    assert_eq!(ulnib.register_neighbor(3, LL_IPV6), Ok(3));
}

#[test]
fn interface_down_unregisters_its_neighbors() {
    let mut ulnib = UnderlayInformationBase::default();
    ulnib.interface_up(Interface::new(3, [1; 6], [0xff; 6]));
    ulnib.interface_up(Interface::new(4, [2; 6], [0xff; 6]));
    ulnib.register_neighbor(3, LL_IPV6).unwrap();
    ulnib.register_neighbor(4, LL_IPV6).unwrap();
    ulnib.register_neighbor(3, LL_IPV6_2).unwrap();
    let mut gone = ulnib.interface_down(&3).unwrap();
    gone.sort();
    assert_eq!(gone, vec![1, 3]);
    assert!(ulnib.get_information(&1).is_none());
    assert!(ulnib.get_information(&3).is_none());
    assert!(ulnib.get_information(&2).is_some());
    assert_eq!(ulnib.get_available(), vec![4]);
    assert_eq!(ulnib.register_neighbor(3, LL_IPV6), Err(UnderlayNeighborInterfaceDownError(3)));
}

#[test]
fn interface_up_again_keeps_or_replaces() {
    let mut ulnib = UnderlayInformationBase::default();
    assert!(ulnib.interface_up(Interface::new(3, [1; 6], [0xff; 6])));
    ulnib.register_neighbor(3, LL_IPV6).unwrap();
    // Same addresses: nothing changes.
    assert!(!ulnib.interface_up(Interface::new(3, [1; 6], [0xff; 6])));
    assert_eq!(ulnib.get_information(&1).unwrap().src_mac, [1; 6]);
    // A new MAC address: the interface is replaced, its neighbors stay.
    assert!(!ulnib.interface_up(Interface::new(3, [9; 6], [0xff; 6])));
    assert_eq!(ulnib.get_information(&1).unwrap().src_mac, [9; 6]);
    assert_eq!(ulnib.interface_down(&3).unwrap(), vec![1]);
}

fn up_attrs(mac: u8) -> Vec<LinkAttribute> {
    vec![
        LinkAttribute::Address(vec![mac; 6]),
        LinkAttribute::Broadcast(vec![0xff; 6]),
        LinkAttribute::Carrier(1),
        LinkAttribute::ProtoDown(0),
        LinkAttribute::OperState { down: false },
        LinkAttribute::Other,
    ]
}

#[test]
fn link_messages_bring_interfaces_up_and_down() {
    let mut ulnib = UnderlayInformationBase::default();
    assert_eq!(handle_link_message(&mut ulnib, 5, &up_attrs(1)), vec![UnderlayNeighborUpdate::InterfaceUp(5)]);
    assert_eq!(ulnib.get_available(), vec![5]);
    ulnib.register_neighbor(5, LL_IPV6).unwrap();
    // Held down by the protocol: the interface goes down with its neighbor.
    let mut down = up_attrs(1);
    down.push(LinkAttribute::ProtoDown(1));
    assert_eq!(
        handle_link_message(&mut ulnib, 5, &down),
        vec![UnderlayNeighborUpdate::InterfaceDown(5), UnderlayNeighborUpdate::UnderlayNeighborDown(1)]
    );
    assert!(ulnib.get_available().is_empty());
    // Down again: nothing to report.
    assert!(handle_link_message(&mut ulnib, 5, &down).is_empty());
    // Without an operational state the link counts as down.
    let no_state = vec![LinkAttribute::Address(vec![1; 6]), LinkAttribute::Broadcast(vec![0xff; 6])];
    assert!(handle_link_message(&mut ulnib, 6, &no_state).is_empty());
    let oper_down = vec![LinkAttribute::OperState { down: true }];
    assert!(handle_link_message(&mut ulnib, 6, &oper_down).is_empty());
    assert!(ulnib.get_available().is_empty());
}

#[test]
fn handle_requests_report_neighbor_changes() {
    let mut ulnib = UnderlayInformationBase::default();
    handle_link_message(&mut ulnib, 5, &up_attrs(2));
    let (resp, updates) =
        handle_request(&mut ulnib, HandleRequest::RegisterUnderlayNeighbor { interface_id: 5, ll_ipv6: LL_IPV6 });
    match resp {
        HandleResponse::Registered(r) => assert_eq!(r, Ok(1)),
        other => panic!("unexpected response {:?}", other),
    }
    assert_eq!(updates, vec![UnderlayNeighborUpdate::UnderlayNeighborUp(1)]);
    let (resp, updates) =
        handle_request(&mut ulnib, HandleRequest::RegisterUnderlayNeighbor { interface_id: 9, ll_ipv6: LL_IPV6 });
    match resp {
        HandleResponse::Registered(r) => assert_eq!(r, Err(UnderlayNeighborInterfaceDownError(9))),
        other => panic!("unexpected response {:?}", other),
    }
    assert!(updates.is_empty());
    match handle_request(&mut ulnib, HandleRequest::GetInformation(1)).0 {
        HandleResponse::Information(Some(info)) => assert_eq!(info.src_mac, [2; 6]),
        other => panic!("unexpected response {:?}", other),
    }
    match handle_request(&mut ulnib, HandleRequest::GetAvailable).0 {
        HandleResponse::Available(ids) => assert_eq!(ids, vec![5]),
        other => panic!("unexpected response {:?}", other),
    }
    let (_, updates) = handle_request(&mut ulnib, HandleRequest::UnregisterUnderlayNeighbor(1));
    assert_eq!(updates, vec![UnderlayNeighborUpdate::UnderlayNeighborDown(1)]);
    let (_, updates) = handle_request(&mut ulnib, HandleRequest::UnregisterUnderlayNeighbor(1));
    assert!(updates.is_empty());
}

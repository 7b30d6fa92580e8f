use nordvpn_rs::admin::{Admin, Cluster, ClusterNode};
use nordvpn_rs::filters::{filter_map, filters_readable_exec, group_selectable_exec, select_filters};
use nordvpn_rs::helper::CurlClient;
use nordvpn_rs::nordvpn::NordVPN;
use nordvpn_rs::proxy::{ProxyRotationMode, ProxyState};
use std::sync::{Arc, RwLock};

fn node(id: &str, host: &str) -> ClusterNode {
    ClusterNode::new(id.to_string(), host.to_string(), vec!["10.0.0.1".to_string()], 80)
}

fn is_uuid_v4(s: &str) -> bool {
    let b: Vec<char> = s.chars().collect();
    b.len() == 36
        && b.iter().enumerate().all(|(i, c)| if [8, 13, 18, 23].contains(&i) { *c == '-' } else { c.is_ascii_digit() || ('a'..='f').contains(c) })
        && b[14] == '4'
        && "89ab".contains(b[19])
}

#[test]
fn cluster_new_has_fresh_identity() {
    let c = Cluster::new(vec!["tp1".to_string(), "tp2".to_string(), "tp1".to_string()], 8080, "host-a".to_string(), vec!["192.168.1.2".to_string()]);
    assert_eq!(c.touchpoints().len(), 2);
    assert!(c.master().is_none());
    assert_eq!(c.other_nodes().len(), 0);
    assert!(is_uuid_v4(c.local_node().id()));
    assert_eq!(c.local_node().host(), "host-a");
    assert_eq!(c.local_node().port(), 8080);
    assert_eq!(c.local_node().ip_addresses(), &vec!["192.168.1.2".to_string()]);
    let d = Cluster::new(vec![], 1, "h".to_string(), vec![]);
    assert_ne!(c.local_node().id(), d.local_node().id());
}

#[test]
fn cluster_default() {
    let c = Cluster::default();
    assert_eq!(c.local_node().id(), "error");
    assert_eq!(c.local_node().host(), "error");
    assert_eq!(c.local_node().port(), 0);
    assert_eq!(c.touchpoints().len(), 0);
}

#[test]
fn cluster_nodes_and_touchpoints() {
    let mut c = Cluster::default();
    assert!(c.add_node(node("n1", "a")));
    assert!(c.add_node(node("n1", "a")));
    assert!(c.add_node(node("n1", "b")));
    assert!(c.add_node(node("n2", "a")));
    assert_eq!(c.other_nodes().len(), 3);
    assert!(c.remove_node("n1".to_string()));
    assert_eq!(c.other_nodes().len(), 1);
    assert_eq!(c.other_nodes()[0].id(), "n2");
    assert!(c.add_touchpoint("x".to_string()));
    assert!(c.add_touchpoint("x".to_string()));
    assert_eq!(c.touchpoints().len(), 1);
    assert!(c.remove_touchpoint("x".to_string()));
    assert!(c.remove_touchpoint("y".to_string()));
    assert_eq!(c.touchpoints().len(), 0);
    assert!(node("a", "b").same(&node("a", "b")));
    assert!(!node("a", "b").same(&node("a", "c")));
}

#[test]
fn admin_answers() {
    let nordvpn = NordVPN::new("n".to_string(), "t".to_string(), None, None).unwrap();
    let proxy = Arc::new(RwLock::new(ProxyState::new(nordvpn, vec![], ProxyRotationMode::Manual).unwrap()));
    let a = Admin::new(CurlClient::new("curl".to_string()), proxy, vec!["tp".to_string()], 80, "h".to_string(), vec![]).unwrap();
    assert_eq!(a.get_rotation(), "rotation");
    assert_eq!(a.set_rotation_from_str("timed", "60"), "rotation");
    assert_eq!(a.cluster.touchpoints().len(), 1);
    assert!(!a.proxy.read().unwrap().drained);
}

#[test]
fn filters_grouped_by_slot() {
    let fs = vec!["United States:1".to_string(), "Germany:2".to_string(), "France".to_string(), "Italy:1".to_string()];
    assert!(filters_readable_exec(&fs));
    let m = filter_map(&fs);
    assert_eq!(m.len(), 3);
    assert_eq!(m[0].slot, 1);
    assert_eq!(m[0].countries, vec!["United States".to_string(), "Italy".to_string()]);
    assert_eq!(m[1].slot, 2);
    assert_eq!(m[2].slot, 0);
    assert_eq!(m[2].countries, vec!["France".to_string()]);
    assert!(group_selectable_exec(&m, Some(1)));
    assert_eq!(select_filters(&m, Some(1)), Some(vec!["United States".to_string(), "Italy".to_string()]));
    assert_eq!(select_filters(&m, None), None);
    assert_eq!(select_filters(&m, Some(3)), None);
    assert!(group_selectable_exec(&m, Some(0)));
    assert_eq!(select_filters(&m, Some(0)), Some(vec!["France".to_string()]));
}

#[test]
fn filters_single_group_and_errors() {
    let fs = vec!["Germany".to_string(), "France".to_string()];
    let m = filter_map(&fs);
    assert_eq!(select_filters(&m, Some(9)), Some(vec!["Germany".to_string(), "France".to_string()]));
    assert_eq!(select_filters(&filter_map(&vec![]), Some(0)), None);
    // a single group that is not slot 0 cannot be selected
    let m = filter_map(&vec!["Germany:3".to_string()]);
    assert!(!group_selectable_exec(&m, None));
    // a slot that is not a number cannot be read
    assert!(!filters_readable_exec(&vec!["Germany:x".to_string()]));
    // groups 0 and 2 only: slot 1 is below the count but missing
    let m = filter_map(&vec!["A".to_string(), "B:2".to_string()]);
    assert!(!group_selectable_exec(&m, Some(1)));
}

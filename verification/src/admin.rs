//! The admin side of the proxy: the cluster membership tables (nodes and
//! touchpoints) and the admin handle that ties them to the curl client and
//! the shared proxy state.
use vstd::prelude::*;
use std::sync::{Arc, RwLock};
use crate::helper::CurlClient;
use crate::proxy::ProxyState;
use crate::text::{owned, string_views};

verus! {

/// The standard library's reader-writer lock, carried as an opaque value.
#[verifier::external_type_specification]
#[verifier::external_body]
#[verifier::reject_recursive_types(T)]
pub struct ExRwLock<T: ?Sized>(RwLock<T>);

/// Text in the canonical hyphenated form of a random (version 4, RFC 4122
/// variant) UUID: 36 characters, hyphens at 8, 13, 18 and 23, lowercase hex
/// digits elsewhere, `4` at 14 and one of `8`, `9`, `a`, `b` at 19.
pub open spec fn is_uuid_v4_text(s: Seq<char>) -> bool {
    &&& s.len() == 36
    &&& forall|i: int| 0 <= i < 36 ==> if i == 8 || i == 13 || i == 18 || i == 23 {
        s[i] == '-'
    } else {
        ('0' <= s[i] <= '9') || ('a' <= s[i] <= 'f')
    }
    &&& s[14] == '4'
    &&& (s[19] == '8' || s[19] == '9' || s[19] == 'a' || s[19] == 'b')
}

/// A fresh random node identifier.
/// Trusted: uuid's `Uuid::new_v4` sets the version nibble to 4 and the
/// variant bits to RFC 4122, and its `Display` writes the lowercase
/// hyphenated form. Which identifier comes out is not stated.
#[verifier::external_body]
fn new_node_id() -> (id: String)
    ensures
        is_uuid_v4_text(id@),
{
    uuid::Uuid::new_v4().to_string()
}

/// A member of the cluster: its identifier, host name, addresses and admin
/// port.
pub struct ClusterNode {
    id: String,
    host: String,
    ip_addresses: Vec<String>,
    port: u16,
}

/// The model of a cluster member.
pub struct ClusterNodeView {
    pub id: Seq<char>,
    pub host: Seq<char>,
    pub ip_addresses: Seq<Seq<char>>,
    pub port: u16,
}

impl View for ClusterNode {
    type V = ClusterNodeView;

    closed spec fn view(&self) -> ClusterNodeView {
        ClusterNodeView {
            id: self.id@,
            host: self.host@,
            ip_addresses: string_views(self.ip_addresses@),
            port: self.port,
        }
    }
}

fn copy_strings(v: &Vec<String>) -> (r: Vec<String>)
    ensures
        string_views(r@) == string_views(v@),
{
    let mut r: Vec<String> = Vec::new();
    let mut i: usize = 0;
    while i < v.len()
        invariant
            i <= v@.len(),
            string_views(r@) == string_views(v@).take(i as int),
        decreases v.len() - i,
    {
        let ghost before = r@;
        r.push(v[i].clone());
        proof {
            assert(string_views(r@) =~= string_views(before).push(v@[i as int]@));
            assert(string_views(v@).take(i + 1) =~= string_views(v@).take(i as int).push(v@[i as int]@));
        }
        i = i + 1;
    }
    assert(string_views(v@).take(v@.len() as int) =~= string_views(v@));
    r
}

fn same_strings(a: &Vec<String>, b: &Vec<String>) -> (r: bool)
    ensures
        r == (string_views(a@) == string_views(b@)),
{
    if a.len() != b.len() {
        assert(string_views(a@).len() != string_views(b@).len());
        return false;
    }
    let mut i: usize = 0;
    while i < a.len()
        invariant
            a.len() == b.len(),
            i <= a.len(),
            forall|k: int| 0 <= k < i ==> a@[k]@ == b@[k]@,
        decreases a.len() - i,
    {
        if a[i] != b[i] {
            assert(string_views(a@)[i as int] != string_views(b@)[i as int]);
            return false;
        }
        i = i + 1;
    }
    assert(string_views(a@) =~= string_views(b@));
    true
}

impl ClusterNode {
    pub fn new(id: String, host: String, ip_addresses: Vec<String>, port: u16) -> (r: Self)
        ensures
            r@ == (ClusterNodeView { id: id@, host: host@, ip_addresses: string_views(ip_addresses@), port }),
    {
        ClusterNode { id, host, ip_addresses, port }
    }

    /// The node's identifier.
    pub fn id(&self) -> (r: &String)
        ensures
            r@ == self@.id,
    {
        &self.id
    }

    /// The node's host name.
    pub fn host(&self) -> (r: &String)
        ensures
            r@ == self@.host,
    {
        &self.host
    }

    /// The node's addresses.
    pub fn ip_addresses(&self) -> (r: &Vec<String>)
        ensures
            string_views(r@) == self@.ip_addresses,
    {
        &self.ip_addresses
    }

    /// The node's admin port.
    pub fn port(&self) -> (r: u16)
        ensures
            r == self@.port,
    {
        self.port
    }

    /// A copy of the node.
    pub fn duplicate(&self) -> (r: Self)
        ensures
            r@ == self@,
    {
        ClusterNode { id: self.id.clone(), host: self.host.clone(), ip_addresses: copy_strings(&self.ip_addresses), port: self.port }
    }

    /// Whether two nodes agree in every field.
    pub fn same(&self, other: &Self) -> (r: bool)
        ensures
            r == (self@ == other@),
    {
        self.id == other.id && self.host == other.host && same_strings(&self.ip_addresses, &other.ip_addresses)
            && self.port == other.port
    }
}

/// The cluster as this node sees it: the master, if known, the touchpoints
/// through which to join, the other members, and this node.
pub struct Cluster {
    master: Option<String>,
    touchpoints: Vec<String>,
    other_nodes: Vec<ClusterNode>,
    local_node: ClusterNode,
}

/// The model of the cluster.
pub struct ClusterView {
    pub master: Option<Seq<char>>,
    pub touchpoints: Set<Seq<char>>,
    pub other_nodes: Set<ClusterNodeView>,
    pub local_node: ClusterNodeView,
}

/// The models of a sequence of nodes.
pub open spec fn node_views(v: Seq<ClusterNode>) -> Seq<ClusterNodeView> {
    v.map_values(|n: ClusterNode| n@)
}

impl View for Cluster {
    type V = ClusterView;

    closed spec fn view(&self) -> ClusterView {
        ClusterView {
            master: match self.master {
                Some(m) => Some(m@),
                None => None,
            },
            touchpoints: string_views(self.touchpoints@).to_set(),
            other_nodes: node_views(self.other_nodes@).to_set(),
            local_node: self.local_node@,
        }
    }
}

impl Default for Cluster {
    /// A cluster with no master, touchpoints or other members, and a local
    /// node named "error" on port 0.
    fn default() -> (r: Self)
        ensures
            r@.master is None,
            r@.touchpoints == Set::<Seq<char>>::empty(),
            r@.other_nodes == Set::<ClusterNodeView>::empty(),
            r@.local_node == (ClusterNodeView { id: "error"@, host: "error"@, ip_addresses: seq![], port: 0 }),
    {
        let r = Cluster {
            master: None,
            touchpoints: Vec::new(),
            other_nodes: Vec::new(),
            local_node: ClusterNode::new(owned("error"), owned("error"), Vec::new(), 0),
        };
        assert(string_views(r.touchpoints@).to_set() =~= Set::<Seq<char>>::empty());
        assert(node_views(r.other_nodes@).to_set() =~= Set::<ClusterNodeView>::empty());
        assert(string_views(Seq::<String>::empty()) =~= Seq::<Seq<char>>::empty());
        r
    }
}

fn contains_string(v: &Vec<String>, s: &String) -> (r: bool)
    ensures
        r == string_views(v@).to_set().contains(s@),
{
    let mut i: usize = 0;
    while i < v.len()
        invariant
            i <= v.len(),
            forall|k: int| 0 <= k < i ==> v@[k]@ != s@,
        decreases v.len() - i,
    {
        if v[i] == *s {
            assert(string_views(v@)[i as int] == s@);
            return true;
        }
        i = i + 1;
    }
    proof {
        if string_views(v@).to_set().contains(s@) {
            let k = choose|k: int| 0 <= k < string_views(v@).len() && string_views(v@)[k] == s@;
            assert(v@[k]@ == s@);
        }
    }
    false
}

impl Cluster {
    /// A cluster with the given touchpoints whose local node is a fresh
    /// random identifier, the host name and addresses given, and `port`.
    pub fn new(cluster_touchpoints: Vec<String>, port: u16, hostname: String, ip_addresses: Vec<String>) -> (r: Self)
        ensures
            r@.master is None,
            r@.touchpoints == string_views(cluster_touchpoints@).to_set(),
            r@.other_nodes == Set::<ClusterNodeView>::empty(),
            is_uuid_v4_text(r@.local_node.id),
            r@.local_node.host == hostname@,
            r@.local_node.ip_addresses == string_views(ip_addresses@),
            r@.local_node.port == port,
    {
        let mut r = Cluster {
            master: None,
            touchpoints: Vec::new(),
            other_nodes: Vec::new(),
            local_node: ClusterNode::new(new_node_id(), hostname, ip_addresses, port),
        };
        assert(string_views(r.touchpoints@).to_set() =~= Set::<Seq<char>>::empty());
        assert(node_views(r.other_nodes@).to_set() =~= Set::<ClusterNodeView>::empty());
        let mut i: usize = 0;
        while i < cluster_touchpoints.len()
            invariant
                i <= cluster_touchpoints.len(),
                r@.master is None,
                r@.other_nodes == Set::<ClusterNodeView>::empty(),
                is_uuid_v4_text(r@.local_node.id),
                r@.local_node.host == hostname@,
                r@.local_node.ip_addresses == string_views(ip_addresses@),
                r@.local_node.port == port,
                r@.touchpoints == string_views(cluster_touchpoints@.take(i as int)).to_set(),
            decreases cluster_touchpoints.len() - i,
        {
            proof {
                assert(cluster_touchpoints@.take(i + 1) =~= cluster_touchpoints@.take(i as int).push(cluster_touchpoints@[i as int]));
                assert(string_views(cluster_touchpoints@.take(i + 1)) =~= string_views(cluster_touchpoints@.take(i as int)).push(cluster_touchpoints@[i as int]@));
                string_views(cluster_touchpoints@.take(i as int)).lemma_push_to_set_commute(cluster_touchpoints@[i as int]@);
            }
            r.add_touchpoint(cluster_touchpoints[i].clone());
            i = i + 1;
        }
        assert(cluster_touchpoints@.take(cluster_touchpoints@.len() as int) =~= cluster_touchpoints@);
        r
    }

    /// Adds a member; a member equal in every field is already there.
    pub fn add_node(&mut self, node: ClusterNode) -> (r: bool)
        ensures
            r,
            final(self)@ == (ClusterView { other_nodes: old(self)@.other_nodes.insert(node@), ..old(self)@ }),
    {
        let ghost before = self.other_nodes@;
        let mut i: usize = 0;
        while i < self.other_nodes.len()
            invariant
                self.other_nodes@ == before,
                i <= before.len(),
                forall|k: int| 0 <= k < i ==> before[k]@ != node@,
            decreases self.other_nodes.len() - i,
        {
            if self.other_nodes[i].same(&node) {
                proof {
                    assert(node_views(before)[i as int] == node@);
                    assert(node_views(before).to_set().insert(node@) =~= node_views(before).to_set());
                }
                return true;
            }
            i = i + 1;
        }
        let ghost nv = node@;
        self.other_nodes.push(node);
        proof {
            assert(node_views(self.other_nodes@) =~= node_views(before).push(nv));
            node_views(before).lemma_push_to_set_commute(nv);
        }
        true
    }

    /// Removes every member with the identifier `node_id`.
    pub fn remove_node(&mut self, node_id: String) -> (r: bool)
        ensures
            r,
            final(self)@ == (ClusterView {
                other_nodes: old(self)@.other_nodes.filter(|n: ClusterNodeView| n.id != node_id@),
                ..old(self)@
            }),
    {
        let ghost before = self.other_nodes@;
        let mut kept: Vec<ClusterNode> = Vec::new();
        let mut i: usize = 0;
        while i < self.other_nodes.len()
            invariant
                self.other_nodes@ == before,
                i <= before.len(),
                forall|n: ClusterNodeView| node_views(kept@).to_set().contains(n) <==> (node_views(before.take(i as int)).to_set().contains(n) && n.id != node_id@),
            decreases self.other_nodes.len() - i,
        {
            let ghost kb = kept@;
            proof {
                assert(before.take(i + 1) =~= before.take(i as int).push(before[i as int]));
                assert(node_views(before.take(i + 1)) =~= node_views(before.take(i as int)).push(before[i as int]@));
                node_views(before.take(i as int)).lemma_push_to_set_commute(before[i as int]@);
            }
            if self.other_nodes[i].id != node_id {
                kept.push(self.other_nodes[i].duplicate());
                proof {
                    assert(node_views(kept@) =~= node_views(kb).push(before[i as int]@));
                    node_views(kb).lemma_push_to_set_commute(before[i as int]@);
                }
            }
            i = i + 1;
        }
        assert(before.take(before.len() as int) =~= before);
        self.other_nodes = kept;
        assert(node_views(self.other_nodes@).to_set() =~= node_views(before).to_set().filter(|n: ClusterNodeView| n.id != node_id@));
        true
    }

    /// Adds a touchpoint.
    pub fn add_touchpoint(&mut self, touchpoint: String) -> (r: bool)
        ensures
            r,
            final(self)@ == (ClusterView { touchpoints: old(self)@.touchpoints.insert(touchpoint@), ..old(self)@ }),
    {
        let ghost before = self.touchpoints@;
        if contains_string(&self.touchpoints, &touchpoint) {
            assert(string_views(before).to_set().insert(touchpoint@) =~= string_views(before).to_set());
        } else {
            let ghost tv = touchpoint@;
            self.touchpoints.push(touchpoint);
            proof {
                assert(string_views(self.touchpoints@) =~= string_views(before).push(tv));
                string_views(before).lemma_push_to_set_commute(tv);
            }
        }
        true
    }

    /// Removes a touchpoint.
    pub fn remove_touchpoint(&mut self, touchpoint: String) -> (r: bool)
        ensures
            r,
            final(self)@ == (ClusterView { touchpoints: old(self)@.touchpoints.remove(touchpoint@), ..old(self)@ }),
    {
        let ghost before = self.touchpoints@;
        let mut kept: Vec<String> = Vec::new();
        let mut i: usize = 0;
        while i < self.touchpoints.len()
            invariant
                self.touchpoints@ == before,
                i <= before.len(),
                string_views(kept@).to_set() == string_views(before.take(i as int)).to_set().remove(touchpoint@),
            decreases self.touchpoints.len() - i,
        {
            let ghost kb = kept@;
            let ghost x = before[i as int]@;
            proof {
                assert(before.take(i + 1) =~= before.take(i as int).push(before[i as int]));
                assert(string_views(before.take(i + 1)) =~= string_views(before.take(i as int)).push(x));
                string_views(before.take(i as int)).lemma_push_to_set_commute(x);
            }
            if self.touchpoints[i] != touchpoint {
                kept.push(self.touchpoints[i].clone());
                proof {
                    assert(string_views(kept@) =~= string_views(kb).push(x));
                    string_views(kb).lemma_push_to_set_commute(x);
                    assert(string_views(kept@).to_set() =~= string_views(before.take(i + 1)).to_set().remove(touchpoint@));
                }
            } else {
                assert(string_views(kept@).to_set() =~= string_views(before.take(i + 1)).to_set().remove(touchpoint@));
            }
            i = i + 1;
        }
        assert(before.take(before.len() as int) =~= before);
        self.touchpoints = kept;
        true
    }

    /// The master, if known.
    pub fn master(&self) -> (r: &Option<String>)
        ensures
            r matches Some(m) ==> self@.master == Some(m@),
            r is None ==> self@.master is None,
    {
        &self.master
    }

    /// The touchpoints, each once.
    pub fn touchpoints(&self) -> (r: &Vec<String>)
        ensures
            string_views(r@).to_set() == self@.touchpoints,
    {
        &self.touchpoints
    }

    /// The other members.
    pub fn other_nodes(&self) -> (r: &Vec<ClusterNode>)
        ensures
            node_views(r@).to_set() == self@.other_nodes,
    {
        &self.other_nodes
    }

    /// This node.
    pub fn local_node(&self) -> (r: &ClusterNode)
        ensures
            r@ == self@.local_node,
    {
        &self.local_node
    }
}

/// The admin interface's state: the curl client, the cluster tables and the
/// shared proxy state.
pub struct Admin {
    pub curl_client: CurlClient,
    pub cluster: Cluster,
    pub proxy: Arc<RwLock<ProxyState>>,
}

impl Admin {
    /// The admin state with a fresh cluster (see `Cluster::new`).
    pub fn new(curl_client: CurlClient, proxy: Arc<RwLock<ProxyState>>, cluster_touchpoints: Vec<String>, port: u16, hostname: String, ip_addresses: Vec<String>) -> (r: Result<Self, &'static str>)
        ensures
            r matches Ok(a) && {
                &&& a.curl_client.path_view() == curl_client.path_view()
                &&& a.proxy == proxy
                &&& a.cluster@.master is None
                &&& a.cluster@.touchpoints == string_views(cluster_touchpoints@).to_set()
                &&& a.cluster@.other_nodes == Set::<ClusterNodeView>::empty()
                &&& is_uuid_v4_text(a.cluster@.local_node.id)
                &&& a.cluster@.local_node.host == hostname@
                &&& a.cluster@.local_node.ip_addresses == string_views(ip_addresses@)
                &&& a.cluster@.local_node.port == port
            },
    {
        Ok(Admin { curl_client, cluster: Cluster::new(cluster_touchpoints, port, hostname, ip_addresses), proxy })
    }

    /// The rotation setting's name.
    pub fn get_rotation(&self) -> (r: String)
        ensures
            r@ == "rotation"@,
    {
        owned("rotation")
    }

    /// Answers a rotation change by type and value with the rotation
    /// setting's name; the setting itself is left as it is.
    pub fn set_rotation_from_str(&self, rotation_type: &str, rotation_value: &str) -> (r: String)
        ensures
            r@ == "rotation"@,
    {
        owned("rotation")
    }
}

} // verus!

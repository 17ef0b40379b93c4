//! A validator node of a test cluster, and the command lines used to reach it.
use vstd::prelude::*;
use vstd::string::StringExecFns;

verus! {

/// A node: its peer name, address, admission-control port and, on Kubernetes, its host node.
#[derive(Clone, Debug)]
pub struct Instance {
    peer_name: String,
    ip: String,
    ac_port: u32,
    k8s_node: Option<String>,
}

/// The character views of a list of strings.
pub open spec fn strs_view(v: Seq<String>) -> Seq<Seq<char>> {
    v.map_values(|s: String| s@)
}

/// The arguments of the `timeout` command that runs a remote command over ssh,
/// before the remote command's own arguments.
pub open spec fn ssh_prefix(ip: Seq<char>) -> Seq<Seq<char>> {
    seq![
        "90"@,
        "ssh"@,
        "-i"@,
        "/libra_rsa"@,
        "-oStrictHostKeyChecking=no"@,
        "-oConnectTimeout=3"@,
        "-oConnectionAttempts=10"@,
        "ec2-user@"@ + ip,
    ]
}

/// The arguments of `scp` that copy `remote` from the node at `ip` to `local`.
pub open spec fn scp_arguments(ip: Seq<char>, remote: Seq<char>, local: Seq<char>) -> Seq<Seq<char>> {
    seq![
        "-i"@,
        "/libra_rsa"@,
        "-oStrictHostKeyChecking=no"@,
        "-oConnectTimeout=3"@,
        "-oConnectionAttempts=10"@,
        "ec2-user@"@ + ip + ":"@ + remote,
        local,
    ]
}

fn owned(s: &str) -> (r: String)
    ensures
        r@ == s@,
{
    s.to_owned()
}

impl Instance {
    pub closed spec fn name_view(&self) -> Seq<char> {
        self.peer_name@
    }

    pub closed spec fn ip_view(&self) -> Seq<char> {
        self.ip@
    }

    pub closed spec fn port_view(&self) -> u32 {
        self.ac_port
    }

    pub closed spec fn node_view(&self) -> Option<Seq<char>> {
        match self.k8s_node {
            Some(n) => Some(n@),
            None => None,
        }
    }

    pub fn new(peer_name: String, ip: String, ac_port: u32) -> (r: Instance)
        ensures
            r.name_view() == peer_name@,
            r.ip_view() == ip@,
            r.port_view() == ac_port,
            r.node_view() is None,
    {
        Instance { peer_name, ip, ac_port, k8s_node: None }
    }

    pub fn new_k8s(peer_name: String, ip: String, ac_port: u32, k8s_node: Option<String>) -> (r: Instance)
        ensures
            r.name_view() == peer_name@,
            r.ip_view() == ip@,
            r.port_view() == ac_port,
            r.node_view() == (match k8s_node {
                Some(n) => Some(n@),
                None => None::<Seq<char>>,
            }),
    {
        Instance { peer_name, ip, ac_port, k8s_node }
    }

    pub fn peer_name(&self) -> (r: &String)
        ensures
            r@ == self.name_view(),
    {
        &self.peer_name
    }

    pub fn ip(&self) -> (r: &String)
        ensures
            r@ == self.ip_view(),
    {
        &self.ip
    }

    pub fn ac_port(&self) -> (r: u32)
        ensures
            r == self.port_view(),
    {
        self.ac_port
    }

    pub fn k8s_node(&self) -> (r: Option<&String>)
        ensures
            r matches Some(n) ==> self.node_view() == Some(n@),
            r is None <==> self.node_view() is None,
    {
        match &self.k8s_node {
            Some(n) => Some(n),
            None => None,
        }
    }

    /// `peer_name(ip)`, the form in which a node is printed.
    pub fn describe(&self) -> (r: String)
        ensures
            r@ == self.name_view() + "("@ + self.ip_view() + ")"@,
    {
        let mut r = self.peer_name.clone();
        r.append("(");
        r.append(self.ip.as_str());
        r.append(")");
        r
    }

    /// The URL at which the node exposes its counters.
    pub fn counters_url(&self) -> (r: String)
        ensures
            r@ == "http://"@ + self.ip_view() + ":9101/counters"@,
    {
        let mut r = owned("http://");
        r.append(self.ip.as_str());
        r.append(":9101/counters");
        r
    }

    /// The arguments given to `timeout` to run a remote command on the node, to be
    /// followed by the remote command's own arguments.
    pub fn ssh_args(&self) -> (r: Vec<String>)
        ensures
            strs_view(r@) == ssh_prefix(self.ip_view()),
    {
        let mut dest = owned("ec2-user@");
        dest.append(self.ip.as_str());
        let mut r: Vec<String> = Vec::new();
        r.push(owned("90"));
        r.push(owned("ssh"));
        r.push(owned("-i"));
        r.push(owned("/libra_rsa"));
        r.push(owned("-oStrictHostKeyChecking=no"));
        r.push(owned("-oConnectTimeout=3"));
        r.push(owned("-oConnectionAttempts=10"));
        r.push(dest);
        assert(strs_view(r@) =~= ssh_prefix(self.ip_view()));
        r
    }

    /// The arguments given to `scp` to fetch `remote_file` from the node into `local_file`.
    pub fn scp_args(&self, remote_file: &str, local_file: &str) -> (r: Vec<String>)
        ensures
            strs_view(r@) == scp_arguments(self.ip_view(), remote_file@, local_file@),
    {
        let mut src = owned("ec2-user@");
        src.append(self.ip.as_str());
        src.append(":");
        src.append(remote_file);
        let mut r: Vec<String> = Vec::new();
        r.push(owned("-i"));
        r.push(owned("/libra_rsa"));
        r.push(owned("-oStrictHostKeyChecking=no"));
        r.push(owned("-oConnectTimeout=3"));
        r.push(owned("-oConnectionAttempts=10"));
        r.push(src);
        r.push(owned(local_file));
        assert(strs_view(r@) =~= scp_arguments(self.ip_view(), remote_file@, local_file@));
        r
    }
}

/// The peer names of a list of instances.
pub open spec fn names_of(instances: Seq<Instance>) -> Seq<Seq<char>> {
    instances.map_values(|x: Instance| x.name_view())
}

/// The peer names of `instances`, each once, in order of first appearance.
pub fn instancelist_to_set(instances: &[Instance]) -> (r: Vec<String>)
    ensures
        strs_view(r@).no_duplicates(),
        strs_view(r@).to_set() == names_of(instances@).to_set(),
{
    let mut r: Vec<String> = Vec::new();
    let mut i: usize = 0;
    assert(strs_view(r@).to_set() =~= names_of(instances@.take(0)).to_set());
    while i < instances.len()
        invariant
            i <= instances@.len(),
            strs_view(r@).no_duplicates(),
            strs_view(r@).to_set() == names_of(instances@.take(i as int)).to_set(),
        decreases instances@.len() - i,
    {
        let name = instances[i].peer_name();
        let ghost before = strs_view(r@);
        let mut j: usize = 0;
        let mut found = false;
        while j < r.len() && !found
            invariant
                j <= r@.len(),
                before == strs_view(r@),
                found ==> before.contains(name@),
                !found ==> forall|m: int| 0 <= m < j ==> before[m] != name@,
            decreases r@.len() - j + (if found { 0int } else { 1int }),
        {
            if r[j] == *name {
                found = true;
                assert(before[j as int] == name@);
            } else {
                j = j + 1;
            }
        }
        proof {
            let taken = instances@.take(i as int + 1);
            assert(taken == instances@.take(i as int).push(instances@[i as int]));
            assert(names_of(taken) =~= names_of(instances@.take(i as int)).push(name@));
            names_of(instances@.take(i as int)).lemma_push_to_set_commute(name@);
        }
        if !found {
            r.push(name.clone());
            proof {
                assert(strs_view(r@) =~= before.push(name@));
                before.lemma_push_to_set_commute(name@);
                assert forall|a: int, b: int| 0 <= a < b < strs_view(r@).len() implies
                    strs_view(r@)[a] != strs_view(r@)[b] by {
                    assert(strs_view(r@)[a] == before[a]);
                    if b == before.len() {
                        assert(before[a] != name@);
                    } else {
                        assert(strs_view(r@)[b] == before[b]);
                    }
                }
            }
        } else {
            assert(before.to_set().contains(name@));
            assert(before.to_set().insert(name@) =~= before.to_set());
        }
        i = i + 1;
    }
    assert(instances@.take(instances@.len() as int) == instances@);
    r
}

} // verus!

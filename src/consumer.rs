use vstd::prelude::*;
use vstd::string::StringExecFns;

verus! {

/// What the control plane reports of one tenant resource.
pub struct TenantResource {
    pub namespace: Option<String>,
    pub name: String,
    pub tier: String,
    pub auth_token: Option<String>,
    pub network: String,
    pub version: String,
}

/// A tenant permitted to use the proxy, as the registry holds it.
pub struct Consumer {
    namespace: String,
    port_name: String,
    tier: String,
    key: String,
    network: String,
    version: String,
    active_connections: usize,
}

/// The mathematical value of a `Consumer`.
pub ghost struct ConsumerV {
    pub namespace: Seq<char>,
    pub port_name: Seq<char>,
    pub tier: Seq<char>,
    pub key: Seq<char>,
    pub network: Seq<char>,
    pub version: Seq<char>,
    pub active_connections: nat,
}

impl View for Consumer {
    type V = ConsumerV;

    closed spec fn view(&self) -> ConsumerV {
        ConsumerV {
            namespace: self.namespace@,
            port_name: self.port_name@,
            tier: self.tier@,
            key: self.key@,
            network: self.network@,
            version: self.version@,
            active_connections: self.active_connections as nat,
        }
    }
}

/// The record that a resource describes, with no connections counted; `None`
/// when the resource lacks its namespace or its auth token.
pub open spec fn resource_consumer(r: TenantResource) -> Option<ConsumerV> {
    match (r.namespace, r.auth_token) {
        (Some(ns), Some(token)) => Some(
            ConsumerV {
                namespace: ns@,
                port_name: r.name@,
                tier: r.tier@,
                key: token@,
                network: r.network@,
                version: r.version@,
                active_connections: 0,
            },
        ),
        _ => None,
    }
}

/// `c` with its connection count set to `n`.
pub open spec fn with_connections(c: ConsumerV, n: nat) -> ConsumerV {
    ConsumerV {
        namespace: c.namespace,
        port_name: c.port_name,
        tier: c.tier,
        key: c.key,
        network: c.network,
        version: c.version,
        active_connections: n,
    }
}

impl Consumer {
    /// Builds the record that a tenant resource describes.
    pub fn from_resource(r: &TenantResource) -> (c: Option<Consumer>)
        ensures
            match c {
                Some(c) => resource_consumer(*r) == Some(c@),
                None => resource_consumer(*r).is_none(),
            },
    {
        match (&r.namespace, &r.auth_token) {
            (Some(ns), Some(token)) => Some(
                Consumer {
                    namespace: ns.clone(),
                    port_name: r.name.clone(),
                    tier: r.tier.clone(),
                    key: token.clone(),
                    network: r.network.clone(),
                    version: r.version.clone(),
                    active_connections: 0,
                },
            ),
            _ => None,
        }
    }

    /// A copy of this record.
    pub fn duplicate(&self) -> (r: Consumer)
        ensures
            r@ == self@,
    {
        Consumer {
            namespace: self.namespace.clone(),
            port_name: self.port_name.clone(),
            tier: self.tier.clone(),
            key: self.key.clone(),
            network: self.network.clone(),
            version: self.version.clone(),
            active_connections: self.active_connections,
        }
    }

    /// This record with its connection count set to `n`.
    pub fn with_active_connections(self, n: usize) -> (r: Consumer)
        ensures
            r@ == with_connections(self@, n as nat),
    {
        Consumer { active_connections: n, ..self }
    }

    /// The name of the bound backend: namespace and port name joined by a dot.
    pub fn display_name(&self) -> (r: String)
        ensures
            r@ == self@.namespace + seq!['.'] + self@.port_name,
    {
        let mut s = self.namespace.clone();
        proof {
            reveal_strlit(".");
        }
        s.append(".");
        s.append(self.port_name.as_str());
        s
    }

    pub fn namespace(&self) -> (r: &str)
        ensures
            r@ == self@.namespace,
    {
        self.namespace.as_str()
    }

    pub fn port_name(&self) -> (r: &str)
        ensures
            r@ == self@.port_name,
    {
        self.port_name.as_str()
    }

    pub fn tier(&self) -> (r: &String)
        ensures
            r@ == self@.tier,
    {
        &self.tier
    }

    pub fn key(&self) -> (r: &String)
        ensures
            r@ == self@.key,
    {
        &self.key
    }

    pub fn network(&self) -> (r: &str)
        ensures
            r@ == self@.network,
    {
        self.network.as_str()
    }

    pub fn version(&self) -> (r: &str)
        ensures
            r@ == self@.version,
    {
        self.version.as_str()
    }

    pub fn active_connections(&self) -> (r: usize)
        ensures
            r == self@.active_connections,
    {
        self.active_connections
    }
}

} // verus!

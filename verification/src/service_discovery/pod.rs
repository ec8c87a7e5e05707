//! Discovery configuration, the pod fields discovery reads, and the
//! `PodInfo` derived from them.

use super::pool::WorkerPool;
use crate::text::{concat, str_eq, u16_to_string, decimal};
use vstd::prelude::*;
use vstd::string::StringExecFns;

verus! {

/// Configuration for Kubernetes service discovery.
///
/// Label selectors are lists of `key=value` pairs whose keys are distinct.
#[derive(Debug)]
pub struct ServiceDiscoveryConfig {
    /// Whether service discovery is enabled.
    pub enabled: bool,
    /// Label selector for worker pods in regular mode.
    pub selector: Vec<(String, String)>,
    /// Seconds between periodic reconciliation cycles.
    pub check_interval: u64,
    /// Port workers listen on inside pods.
    pub port: u16,
    /// Namespace to watch (`None` = all namespaces).
    pub namespace: Option<String>,
    /// Whether Prefill-Decode separation mode is active.
    pub pd_mode: bool,
    /// Label selector for prefill pods (PD mode).
    pub prefill_selector: Vec<(String, String)>,
    /// Label selector for decode pods (PD mode).
    pub decode_selector: Vec<(String, String)>,
}

impl Default for ServiceDiscoveryConfig {
    fn default() -> (c: Self)
        ensures
            !c.enabled,
            c.selector@.len() == 0,
            c.check_interval == 60,
            c.port == 8000,
            c.namespace is None,
            !c.pd_mode,
            c.prefill_selector@.len() == 0,
            c.decode_selector@.len() == 0,
    {
        ServiceDiscoveryConfig {
            enabled: false,
            selector: Vec::new(),
            check_interval: 60,
            port: 8000,
            namespace: None,
            pd_mode: false,
            prefill_selector: Vec::new(),
            decode_selector: Vec::new(),
        }
    }
}

/// The plain view of a list of string pairs.
pub open spec fn pairs_view(v: Seq<(String, String)>) -> Seq<(Seq<char>, Seq<char>)> {
    v.map_values(|p: (String, String)| (p.0@, p.1@))
}

/// The value of the first pair whose key is `key`.
pub open spec fn label_lookup(labels: Seq<(Seq<char>, Seq<char>)>, key: Seq<char>) -> Option<Seq<char>>
    decreases labels.len(),
{
    if labels.len() == 0 {
        None
    } else {
        match label_lookup(labels.drop_last(), key) {
            Some(v) => Some(v),
            None => if labels.last().0 == key {
                Some(labels.last().1)
            } else {
                None
            },
        }
    }
}

/// `k=v` pairs joined by commas.
pub open spec fn join_selector(pairs: Seq<(Seq<char>, Seq<char>)>) -> Seq<char>
    decreases pairs.len(),
{
    if pairs.len() == 0 {
        Seq::empty()
    } else if pairs.len() == 1 {
        pairs[0].0 + "="@ + pairs[0].1
    } else {
        join_selector(pairs.drop_last()) + ","@ + pairs.last().0 + "="@ + pairs.last().1
    }
}

/// The pairs of `a` that `b` holds with the same value, in `a`'s order.
pub open spec fn common_pairs(a: Seq<(Seq<char>, Seq<char>)>, b: Seq<(Seq<char>, Seq<char>)>) -> Seq<(Seq<char>, Seq<char>)>
    decreases a.len(),
{
    if a.len() == 0 {
        a
    } else {
        let rest = common_pairs(a.drop_last(), b);
        if label_lookup(b, a.last().0) == Some(a.last().1) {
            rest.push(a.last())
        } else {
            rest
        }
    }
}

/// The label selector for list and watch calls: the worker selector in
/// regular mode, and in PD mode the labels common to the prefill and decode
/// selectors, so that one call covers both pod types.
pub open spec fn list_label_selector_spec(c: ServiceDiscoveryConfig) -> Seq<char> {
    if c.pd_mode {
        join_selector(common_pairs(pairs_view(c.prefill_selector@), pairs_view(c.decode_selector@)))
    } else {
        join_selector(pairs_view(c.selector@))
    }
}

/// Look up `key` in a list of pairs.
pub fn lookup_label(labels: &Vec<(String, String)>, key: &str) -> (r: Option<String>)
    ensures
        match r {
            Some(v) => label_lookup(pairs_view(labels@), key@) == Some(v@),
            None => label_lookup(pairs_view(labels@), key@) is None,
        },
{
    let mut i: usize = 0;
    while i < labels.len()
        invariant
            i <= labels@.len(),
            label_lookup(pairs_view(labels@).take(i as int), key@) is None,
        decreases labels@.len() - i,
    {
        assert(pairs_view(labels@).take(i + 1).drop_last() =~= pairs_view(labels@).take(i as int));
        if str_eq(labels[i].0.as_str(), key) {
            let v = labels[i].1.clone();
            proof {
                lemma_lookup_prefix(pairs_view(labels@), key@, i + 1);
            }
            return Some(v);
        }
        i = i + 1;
    }
    assert(pairs_view(labels@).take(i as int) =~= pairs_view(labels@));
    None
}

/// A lookup that succeeds on a prefix gives the same answer on the whole.
pub proof fn lemma_lookup_prefix(labels: Seq<(Seq<char>, Seq<char>)>, key: Seq<char>, n: int)
    requires
        0 <= n <= labels.len(),
        label_lookup(labels.take(n), key) is Some,
    ensures
        label_lookup(labels, key) == label_lookup(labels.take(n), key),
    decreases labels.len() - n,
{
    if n < labels.len() {
        assert(labels.take(n + 1).drop_last() =~= labels.take(n));
        lemma_lookup_prefix(labels, key, n + 1);
    } else {
        assert(labels.take(n) =~= labels);
    }
}

/// Join `k=v` pairs with commas.
fn join_pairs(pairs: &Vec<(String, String)>) -> (s: String)
    ensures
        s@ == join_selector(pairs_view(pairs@)),
{
    let mut s = String::new();
    let mut i: usize = 0;
    while i < pairs.len()
        invariant
            i <= pairs@.len(),
            s@ == join_selector(pairs_view(pairs@).take(i as int)),
        decreases pairs@.len() - i,
    {
        assert(pairs_view(pairs@).take(i + 1).drop_last() =~= pairs_view(pairs@).take(i as int));
        if i > 0 {
            s.append(",");
        }
        s.append(pairs[i].0.as_str());
        s.append("=");
        s.append(pairs[i].1.as_str());
        proof {
            if i == 0 {
                assert(s@ =~= pairs_view(pairs@).take(1)[0].0 + "="@ + pairs_view(pairs@).take(1)[0].1);
            }
        }
        i = i + 1;
    }
    assert(pairs_view(pairs@).take(i as int) =~= pairs_view(pairs@));
    s
}

impl ServiceDiscoveryConfig {
    /// Build the label selector string for list and watch calls.
    pub fn list_label_selector(&self) -> (s: String)
        ensures
            s@ == list_label_selector_spec(*self),
    {
        if self.pd_mode {
            let mut common: Vec<(String, String)> = Vec::new();
            let mut i: usize = 0;
            while i < self.prefill_selector.len()
                invariant
                    i <= self.prefill_selector@.len(),
                    pairs_view(common@) == common_pairs(
                        pairs_view(self.prefill_selector@).take(i as int),
                        pairs_view(self.decode_selector@),
                    ),
                decreases self.prefill_selector@.len() - i,
            {
                let ghost pv = pairs_view(self.prefill_selector@);
                assert(pv.take(i + 1).drop_last() =~= pv.take(i as int));
                let k = self.prefill_selector[i].0.as_str();
                let v = self.prefill_selector[i].1.as_str();
                match lookup_label(&self.decode_selector, k) {
                    Some(dv) => {
                        if str_eq(dv.as_str(), v) {
                            let ghost c0 = common@;
                            common.push((k.to_owned(), v.to_owned()));
                            assert(pairs_view(common@) =~= pairs_view(c0).push(pv[i as int]));
                        }
                    },
                    None => {},
                }
                i = i + 1;
            }
            assert(pairs_view(self.prefill_selector@).take(i as int) =~= pairs_view(
                self.prefill_selector@,
            ));
            join_pairs(&common)
        } else {
            join_pairs(&self.selector)
        }
    }
}

/// Classification of a worker pod in PD mode.
#[derive(Debug, Clone, Copy, PartialEq, Eq, Hash)]
pub enum PodType {
    Prefill,
    Decode,
    Regular,
}

/// One entry of a pod's status conditions.
#[derive(Debug, Clone)]
pub struct PodConditionInfo {
    pub type_: String,
    pub status: String,
}

/// The part of a pod's status that discovery reads.
#[derive(Debug, Clone)]
pub struct PodStatusInfo {
    pub pod_ip: Option<String>,
    pub phase: Option<String>,
    pub conditions: Option<Vec<PodConditionInfo>>,
}

/// The fields of a Kubernetes pod that discovery reads.
#[derive(Debug, Clone)]
pub struct PodObject {
    pub name: Option<String>,
    pub uid: Option<String>,
    pub labels: Option<Vec<(String, String)>>,
    /// Whether the pod carries a deletion timestamp.
    pub deleting: bool,
    pub status: Option<PodStatusInfo>,
}

/// Information about a discovered pod. Identity is `(name, uid)`: the uid
/// changes on every restart, so a restarted pod that keeps its name is a
/// different entity.
#[derive(Debug)]
pub struct PodInfo {
    pub name: String,
    pub uid: String,
    pub ip: String,
    pub status: String,
    pub is_ready: bool,
    pub pod_type: Option<PodType>,
}

/// Every pair of a non-empty selector is among the pod's labels.
pub open spec fn selector_matches(labels: Option<Vec<(String, String)>>, selector: Seq<(Seq<char>, Seq<char>)>) -> bool {
    &&& selector.len() > 0
    &&& labels is Some
    &&& forall|i: int|
        0 <= i < selector.len() ==> label_lookup(pairs_view(labels.unwrap()@), (#[trigger] selector[i]).0)
            == Some(selector[i].1)
}

/// Whether a pod belongs to the workers the configuration selects.
pub open spec fn should_include_spec(pod: PodObject, c: ServiceDiscoveryConfig) -> bool {
    if c.pd_mode {
        if c.prefill_selector@.len() == 0 && c.decode_selector@.len() == 0 {
            false
        } else {
            selector_matches(pod.labels, pairs_view(c.prefill_selector@)) || selector_matches(
                pod.labels,
                pairs_view(c.decode_selector@),
            )
        }
    } else {
        if c.selector@.len() == 0 {
            false
        } else {
            selector_matches(pod.labels, pairs_view(c.selector@))
        }
    }
}

/// The pod type a configuration assigns to a pod: in PD mode, the role
/// whose selector the pod matches; where it matches both, the role with
/// the more specific (longer) selector, prefill on a tie.
pub open spec fn pod_type_spec(pod: PodObject, c: ServiceDiscoveryConfig) -> PodType {
    if c.pd_mode {
        let p = selector_matches(pod.labels, pairs_view(c.prefill_selector@));
        let d = selector_matches(pod.labels, pairs_view(c.decode_selector@));
        if p && d {
            if c.decode_selector@.len() > c.prefill_selector@.len() {
                PodType::Decode
            } else {
                PodType::Prefill
            }
        } else if p {
            PodType::Prefill
        } else if d {
            PodType::Decode
        } else {
            PodType::Regular
        }
    } else {
        PodType::Regular
    }
}

/// Some condition has type `Ready` and status `True`.
pub open spec fn ready_spec(conditions: Option<Vec<PodConditionInfo>>) -> bool {
    match conditions {
        Some(cs) => exists|i: int|
            0 <= i < cs@.len() && (#[trigger] cs@[i]).type_@ == "Ready"@ && cs@[i].status@ == "True"@,
        None => false,
    }
}

/// A pod yields a `PodInfo` exactly when it has a name, a uid, a status and
/// an IP.
pub open spec fn pod_complete(pod: PodObject) -> bool {
    &&& pod.name is Some
    &&& pod.uid is Some
    &&& pod.status is Some
    &&& pod.status.unwrap().pod_ip is Some
}

/// The `PodInfo` of a complete pod, field by field.
pub open spec fn pod_info_of(info: PodInfo, pod: PodObject, c: Option<ServiceDiscoveryConfig>) -> bool {
    let st = pod.status.unwrap();
    &&& info.name@ == pod.name.unwrap()@
    &&& info.uid@ == pod.uid.unwrap()@
    &&& info.ip@ == st.pod_ip.unwrap()@
    &&& info.status@ == (match st.phase {
        Some(p) => p@,
        None => "Unknown"@,
    })
    &&& info.is_ready == ready_spec(st.conditions)
    &&& info.pod_type == (match c {
        Some(cfg) => Some(pod_type_spec(pod, cfg)),
        None => None,
    })
}

/// Whether a pod is healthy: ready and running.
pub open spec fn pod_healthy(p: PodInfo) -> bool {
    p.is_ready && p.status@ == "Running"@
}

/// The worker URL of a pod: `ip:port`.
pub open spec fn worker_url_spec(ip: Seq<char>, port: u16) -> Seq<char> {
    ip + ":"@ + decimal(port as nat)
}

impl PodInfo {
    /// Whether a pod's labels satisfy a selector (an empty selector matches
    /// nothing).
    pub fn matches_selector(pod: &PodObject, selector: &Vec<(String, String)>) -> (r: bool)
        ensures
            r == selector_matches(pod.labels, pairs_view(selector@)),
    {
        if selector.len() == 0 {
            return false;
        }
        match &pod.labels {
            None => false,
            Some(labels) => {
                let mut i: usize = 0;
                while i < selector.len()
                    invariant
                        pod.labels == Some(*labels),
                        i <= selector@.len(),
                        forall|j: int|
                            0 <= j < i ==> label_lookup(pairs_view(labels@), (#[trigger] pairs_view(selector@)[j]).0)
                                == Some(pairs_view(selector@)[j].1),
                    decreases selector@.len() - i,
                {
                    let want = selector[i].1.as_str();
                    match lookup_label(labels, selector[i].0.as_str()) {
                        Some(v) => {
                            if !str_eq(v.as_str(), want) {
                                assert(pairs_view(selector@)[i as int].1 == want@);
                                return false;
                            }
                        },
                        None => {
                            assert(pairs_view(selector@)[i as int].0 == selector@[i as int].0@);
                            return false;
                        },
                    }
                    i = i + 1;
                }
                true
            },
        }
    }

    /// Determine whether a pod should be included under the configuration.
    pub fn should_include(pod: &PodObject, config: &ServiceDiscoveryConfig) -> (r: bool)
        ensures
            r == should_include_spec(*pod, *config),
    {
        if config.pd_mode {
            if config.prefill_selector.len() == 0 && config.decode_selector.len() == 0 {
                return false;
            }
            Self::matches_selector(pod, &config.prefill_selector) || Self::matches_selector(
                pod,
                &config.decode_selector,
            )
        } else {
            if config.selector.len() == 0 {
                return false;
            }
            Self::matches_selector(pod, &config.selector)
        }
    }

    /// Build a `PodInfo` from a pod: `None` unless the pod has a name, a
    /// uid, a status and an IP.
    pub fn from_pod(pod: &PodObject, config: Option<&ServiceDiscoveryConfig>) -> (r: Option<PodInfo>)
        ensures
            r is Some <==> pod_complete(*pod),
            r matches Some(info) ==> pod_info_of(
                info,
                *pod,
                match config {
                    Some(c) => Some(*c),
                    None => None,
                },
            ),
    {
        let name = match &pod.name {
            Some(n) => n.clone(),
            None => return None,
        };
        let uid = match &pod.uid {
            Some(u) => u.clone(),
            None => return None,
        };
        let status = match &pod.status {
            Some(s) => s,
            None => return None,
        };
        let ip = match &status.pod_ip {
            Some(ip) => ip.clone(),
            None => return None,
        };
        let mut is_ready = false;
        match &status.conditions {
            Some(conditions) => {
                let mut i: usize = 0;
                while i < conditions.len()
                    invariant
                        status.conditions == Some(*conditions),
                        i <= conditions@.len(),
                        is_ready == exists|j: int|
                            0 <= j < i && (#[trigger] conditions@[j]).type_@ == "Ready"@
                                && conditions@[j].status@ == "True"@,
                    decreases conditions@.len() - i,
                {
                    if str_eq(conditions[i].type_.as_str(), "Ready") && str_eq(
                        conditions[i].status.as_str(),
                        "True",
                    ) {
                        is_ready = true;
                    }
                    i = i + 1;
                }
            },
            None => {},
        }
        let phase = match &status.phase {
            Some(p) => p.clone(),
            None => "Unknown".to_owned(),
        };
        let pod_type = match config {
            Some(cfg) => {
                if cfg.pd_mode {
                    let p = PodInfo::matches_selector(pod, &cfg.prefill_selector);
                    let d = PodInfo::matches_selector(pod, &cfg.decode_selector);
                    if p && d {
                        if cfg.decode_selector.len() > cfg.prefill_selector.len() {
                            Some(PodType::Decode)
                        } else {
                            Some(PodType::Prefill)
                        }
                    } else if p {
                        Some(PodType::Prefill)
                    } else if d {
                        Some(PodType::Decode)
                    } else {
                        Some(PodType::Regular)
                    }
                } else {
                    Some(PodType::Regular)
                }
            },
            None => None,
        };
        Some(PodInfo { name, uid, ip, status: phase, is_ready, pod_type })
    }

    /// Returns `true` if this pod is ready and running.
    pub fn is_healthy(&self) -> (b: bool)
        ensures
            b == pod_healthy(*self),
    {
        self.is_ready && str_eq(self.status.as_str(), "Running")
    }

    /// The worker URL of this pod: `ip:port`.
    pub fn worker_url(&self, port: u16) -> (s: String)
        ensures
            s@ == worker_url_spec(self.ip@, port),
    {
        let mut s = self.ip.clone();
        s.append(":");
        let p = u16_to_string(port);
        s.append(p.as_str());
        s
    }

    /// A pod info equal to this one.
    pub fn duplicate(&self) -> (r: PodInfo)
        ensures
            r == *self,
    {
        PodInfo {
            name: self.name.clone(),
            uid: self.uid.clone(),
            ip: self.ip.clone(),
            status: self.status.clone(),
            is_ready: self.is_ready,
            pod_type: self.pod_type,
        }
    }
}

/// Which pool a pod's worker belongs to.
#[derive(Debug, Clone, Copy, PartialEq, Eq)]
pub enum PoolKind {
    Regular,
    Prefill,
    Decode,
}

/// The pool for a pod: by its type in PD mode, falling back to the regular
/// pool when the pool of that type is absent; always the regular pool
/// outside PD mode.
pub open spec fn pool_kind_spec(pod_type: Option<PodType>, pd_mode: bool, has_prefill: bool, has_decode: bool) -> PoolKind {
    if pd_mode {
        match pod_type {
            Some(PodType::Prefill) => if has_prefill { PoolKind::Prefill } else { PoolKind::Regular },
            Some(PodType::Decode) => if has_decode { PoolKind::Decode } else { PoolKind::Regular },
            _ => PoolKind::Regular,
        }
    } else {
        PoolKind::Regular
    }
}

/// The pool kind for a pod.
pub fn pool_kind(pod_info: &PodInfo, pd_mode: bool, has_prefill: bool, has_decode: bool) -> (k: PoolKind)
    ensures
        k == pool_kind_spec(pod_info.pod_type, pd_mode, has_prefill, has_decode),
{
    if pd_mode {
        match pod_info.pod_type {
            Some(PodType::Prefill) => if has_prefill { PoolKind::Prefill } else { PoolKind::Regular },
            Some(PodType::Decode) => if has_decode { PoolKind::Decode } else { PoolKind::Regular },
            _ => PoolKind::Regular,
        }
    } else {
        PoolKind::Regular
    }
}

/// Select the pool for a pod based on its type and PD mode.
pub fn select_pool<'a>(
    pod_info: &PodInfo,
    pd_mode: bool,
    regular_pool: &'a WorkerPool,
    prefill_pool: Option<&'a WorkerPool>,
    decode_pool: Option<&'a WorkerPool>,
) -> (p: &'a WorkerPool)
    ensures
        p == (match pool_kind_spec(pod_info.pod_type, pd_mode, prefill_pool is Some, decode_pool is Some) {
            PoolKind::Regular => regular_pool,
            PoolKind::Prefill => prefill_pool.unwrap(),
            PoolKind::Decode => decode_pool.unwrap(),
        }),
{
    match pool_kind(pod_info, pd_mode, prefill_pool.is_some(), decode_pool.is_some()) {
        PoolKind::Regular => regular_pool,
        PoolKind::Prefill => prefill_pool.unwrap(),
        PoolKind::Decode => decode_pool.unwrap(),
    }
}

/// A pod is ready exactly when one of its status conditions has type
/// `Ready` and status `True`: a condition of any other type, whatever its
/// status, never makes it ready, and a pod with no `Ready` condition is
/// neither ready nor healthy.
pub proof fn law_ready_needs_ready_condition(info: PodInfo, pod: PodObject, c: Option<ServiceDiscoveryConfig>)
    requires
        pod_complete(pod),
        pod_info_of(info, pod, c),
    ensures
        info.is_ready <==> (match pod.status.unwrap().conditions {
            Some(conds) => exists|k: int|
                0 <= k < conds@.len() && conds@[k].status@ == "True"@ && (#[trigger] conds@[k]).type_@ == "Ready"@,
            None => false,
        }),
        (match pod.status.unwrap().conditions {
            Some(conds) => forall|k: int| 0 <= k < conds@.len() ==> (#[trigger] conds@[k]).type_@ != "Ready"@,
            None => true,
        }) ==> !info.is_ready && !pod_healthy(info),
{
}

} // verus!

//! The identity of a pod: the unit that two snapshots are compared by.

use vstd::prelude::*;

verus! {

/// The mathematical value of a pod identity: its three names as character
/// sequences. Two identities denote the same pod exactly when their keys are
/// equal, character for character; nothing is trimmed or case-folded.
pub struct PodKey {
    pub cluster: Seq<char>,
    pub namespace: Seq<char>,
    pub pod: Seq<char>,
}

impl PodKey {
    /// All three names are present, that is, non-empty.
    pub open spec fn well_formed(self) -> bool {
        &&& self.cluster.len() > 0
        &&& self.namespace.len() > 0
        &&& self.pod.len() > 0
    }
}

/// One of the three names of a pod identity, in the order in which they are
/// checked.
#[derive(Clone, Copy, Debug, PartialEq, Eq, Structural)]
pub enum Field {
    Cluster,
    Namespace,
    Pod,
}

impl Field {
    /// The name under which the field appears in a record.
    pub open spec fn spec_name(self) -> Seq<char> {
        match self {
            Field::Cluster => "cluster"@,
            Field::Namespace => "namespace"@,
            Field::Pod => "pod"@,
        }
    }

    /// The name under which the field appears in a record.
    pub fn name(self) -> (r: &'static str)
        ensures
            r@ == self.spec_name(),
    {
        match self {
            Field::Cluster => "cluster",
            Field::Namespace => "namespace",
            Field::Pod => "pod",
        }
    }
}

/// The first of the three names that is empty, in the order cluster,
/// namespace, pod; `None` when all are present.
pub open spec fn first_empty(cluster: Seq<char>, namespace: Seq<char>, pod: Seq<char>) -> Option<
    Field,
> {
    if cluster.len() == 0 {
        Some(Field::Cluster)
    } else if namespace.len() == 0 {
        Some(Field::Namespace)
    } else if pod.len() == 0 {
        Some(Field::Pod)
    } else {
        None
    }
}

/// A pod identity: cluster, namespace and pod name, none of them empty.
///
/// The names are opaque: they are compared by exact string equality and never
/// parsed. A value is immutable once built.
#[derive(Debug)]
pub struct PodIdentity {
    cluster: String,
    namespace: String,
    pod: String,
}

impl View for PodIdentity {
    type V = PodKey;

    closed spec fn view(&self) -> PodKey {
        PodKey { cluster: self.cluster@, namespace: self.namespace@, pod: self.pod@ }
    }
}

impl PodIdentity {
    #[verifier::type_invariant]
    spec fn names_present(self) -> bool {
        self@.well_formed()
    }

    /// Builds an identity from its three names. Fails on the first name, in
    /// the order cluster, namespace, pod, that is empty, and says which.
    pub fn new(cluster: String, namespace: String, pod: String) -> (r: Result<PodIdentity, Field>)
        ensures
            match r {
                Ok(p) => first_empty(cluster@, namespace@, pod@) is None && p@ == (PodKey {
                    cluster: cluster@,
                    namespace: namespace@,
                    pod: pod@,
                }),
                Err(f) => first_empty(cluster@, namespace@, pod@) == Some(f),
            },
    {
        if cluster.as_str().is_empty() {
            Err(Field::Cluster)
        } else if namespace.as_str().is_empty() {
            Err(Field::Namespace)
        } else if pod.as_str().is_empty() {
            Err(Field::Pod)
        } else {
            Ok(PodIdentity { cluster, namespace, pod })
        }
    }

    /// The cluster name.
    pub fn cluster(&self) -> (r: &str)
        ensures
            r@ == self@.cluster,
            r@.len() > 0,
    {
        proof {
            use_type_invariant(self);
        }
        self.cluster.as_str()
    }

    /// The namespace name.
    pub fn namespace(&self) -> (r: &str)
        ensures
            r@ == self@.namespace,
            r@.len() > 0,
    {
        proof {
            use_type_invariant(self);
        }
        self.namespace.as_str()
    }

    /// The pod name.
    pub fn pod(&self) -> (r: &str)
        ensures
            r@ == self@.pod,
            r@.len() > 0,
    {
        proof {
            use_type_invariant(self);
        }
        self.pod.as_str()
    }

    /// Gives the three names back, in the order cluster, namespace, pod.
    pub fn into_parts(self) -> (r: (String, String, String))
        ensures
            r.0@ == self@.cluster,
            r.1@ == self@.namespace,
            r.2@ == self@.pod,
            self@.well_formed(),
    {
        proof {
            use_type_invariant(&self);
        }
        (self.cluster, self.namespace, self.pod)
    }
}

impl Clone for PodIdentity {
    fn clone(&self) -> (r: Self)
        ensures
            r@ == self@,
    {
        proof {
            use_type_invariant(self);
        }
        PodIdentity {
            cluster: self.cluster.clone(),
            namespace: self.namespace.clone(),
            pod: self.pod.clone(),
        }
    }
}

impl PartialEq for PodIdentity {
    fn eq(&self, other: &Self) -> (r: bool) {
        self.cluster == other.cluster && self.namespace == other.namespace && self.pod
            == other.pod
    }
}

impl Eq for PodIdentity {

}

impl vstd::std_specs::cmp::PartialEqSpecImpl for PodIdentity {
    open spec fn obeys_eq_spec() -> bool {
        true
    }

    open spec fn eq_spec(&self, other: &Self) -> bool {
        self@ == other@
    }
}

} // verus!

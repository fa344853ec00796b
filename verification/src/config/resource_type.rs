use vstd::prelude::*;
use crate::strutil;

verus! {

/// The type of resource to forward to.
#[derive(Debug, Clone, Copy, PartialEq, Eq, Structural)]
pub enum ResourceType {
    Service,
    Deployment,
    Pod,
}

impl Default for ResourceType {
    /// A target forwards to a service unless it says otherwise.
    fn default() -> (r: Self)
        ensures
            r == ResourceType::Service,
    {
        ResourceType::Service
    }
}

impl ResourceType {
    /// The spelling of the resource kind on the forwarding command line
    /// and in configuration documents.
    pub open spec fn spec_arg(&self) -> Seq<char> {
        match self {
            ResourceType::Service => "service"@,
            ResourceType::Deployment => "deployment"@,
            ResourceType::Pod => "pod"@,
        }
    }

    /// Writes the resource kind as a command-line argument.
    pub fn to_arg(&self) -> (s: &'static str)
        ensures
            s@ == self.spec_arg(),
    {
        match self {
            ResourceType::Service => "service",
            ResourceType::Deployment => "deployment",
            ResourceType::Pod => "pod",
        }
    }

    /// Reads a resource kind from its spelling in a document.
    pub fn from_arg(s: &str) -> (r: Option<ResourceType>)
        ensures
            r matches Some(t) ==> s@ == t.spec_arg(),
            r is None ==> s@ != ResourceType::Service.spec_arg() && s@
                != ResourceType::Deployment.spec_arg() && s@ != ResourceType::Pod.spec_arg(),
    {
        if strutil::str_eq(s, "service") {
            Some(ResourceType::Service)
        } else if strutil::str_eq(s, "deployment") {
            Some(ResourceType::Deployment)
        } else if strutil::str_eq(s, "pod") {
            Some(ResourceType::Pod)
        } else {
            None
        }
    }
}

} // verus!

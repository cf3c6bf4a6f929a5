//! External services as the API shows them.

use vstd::prelude::*;

use crate::domain::entity::external_services;

verus! {

/// An external service as the API shows it.
#[derive(Clone, Debug, PartialEq, Eq)]
pub struct ExternalService {
    pub id: u128,
    pub slug: String,
    pub name: String,
}

/// `g` shows the service `s`.
pub open spec fn shows_service(g: ExternalService, s: external_services::ExternalService) -> bool {
    g.id == s.id.0 && g.slug@ == s.slug@ && g.name@ == s.name@
}

impl From<external_services::ExternalService> for ExternalService {
    fn from(external_service: external_services::ExternalService) -> (g: Self)
        ensures
            shows_service(g, external_service),
    {
        ExternalService {
            id: external_service.id.0,
            slug: external_service.slug,
            name: external_service.name,
        }
    }
}

impl vstd::std_specs::convert::FromSpecImpl<external_services::ExternalService> for ExternalService {
    open spec fn obeys_from_spec() -> bool {
        false
    }

    open spec fn from_spec(v: external_services::ExternalService) -> Self {
        arbitrary()
    }
}

} // verus!

//! The identities of services. Every binding of a family of services to its
//! parameters is an identity of its own.

use vstd::prelude::*;
use vstd::string::*;

use crate::modules::bbmri::{Bbmri, Eric, Gbn};
use crate::modules::ccp::CcpDefault;
use crate::services::beam::{url_host_text, BrokerProvider};
use crate::services::blaze::{BlazeProvider, BlazeTraefikConfig};
use crate::services::obds2fhir::Obds2FhirProvider;
use crate::utils::{concat2, is_plain};

verus! {

/// A broker network.
#[derive(Clone, Copy, Debug, PartialEq, Eq, Structural)]
pub enum Network {
    Ccp,
    Eric,
    Gbn,
}

/// A project that runs a store of its own.
#[derive(Clone, Copy, Debug, PartialEq, Eq, Structural)]
pub enum BlazeSite {
    Ccp,
    Bbmri,
}

/// A service that owns a database.
#[derive(Clone, Copy, Debug, PartialEq, Eq, Structural)]
pub enum PgOwner {
    DataShield,
    Exporter,
    IdManagement,
}

/// The identity of a service: its family and what the family is bound to.
#[derive(Clone, Copy, Debug, PartialEq, Eq, Structural)]
pub enum ServiceId {
    Traefik,
    ForwardProxy,
    BeamProxy(Network),
    BeamConnect(Network),
    Blaze(BlazeSite),
    Focus(Network, BlazeSite),
    Postgres(PgOwner),
    DataShield,
    Exporter,
    DirectorySync(BlazeSite),
    DnpmNode,
    IdManagement,
    Obds2Fhir,
    Podest2Fhir,
    Teiler,
    Transfair(BlazeSite),
}

impl Network {
    pub open spec fn spec_name(self) -> Seq<char> {
        match self {
            Network::Ccp => CcpDefault::spec_network_name(),
            Network::Eric => Eric::spec_network_name(),
            Network::Gbn => Gbn::spec_network_name(),
        }
    }

    /// The short name of the network.
    pub fn name(self) -> (name: String)
        ensures
            name@ == self.spec_name(),
    {
        match self {
            Network::Ccp => CcpDefault::network_name(),
            Network::Eric => Eric::network_name(),
            Network::Gbn => Gbn::network_name(),
        }
    }

    pub open spec fn spec_broker_url(self) -> Seq<char> {
        match self {
            Network::Ccp => CcpDefault::spec_broker_url(),
            Network::Eric => Eric::spec_broker_url(),
            Network::Gbn => Gbn::spec_broker_url(),
        }
    }

    pub fn broker_url(self) -> (url: String)
        ensures
            url@ == self.spec_broker_url(),
    {
        match self {
            Network::Ccp => CcpDefault::broker_url(),
            Network::Eric => Eric::broker_url(),
            Network::Gbn => Gbn::broker_url(),
        }
    }

    /// The id of the network's broker: the host of its URL.
    pub fn broker_id(self) -> (id: Option<String>)
        ensures
            match id {
                Some(h) => url_host_text(self.spec_broker_url()) == Some(h@),
                None => url_host_text(self.spec_broker_url()) is None,
            },
    {
        match self {
            Network::Ccp => CcpDefault::broker_id(),
            Network::Eric => Eric::broker_id(),
            Network::Gbn => Gbn::broker_id(),
        }
    }

    /// The names of the networks are plain names.
    pub proof fn lemma_name_plain(self)
        ensures
            is_plain(self.spec_name()),
    {
        reveal_strlit("ccp");
        reveal_strlit("eric");
        reveal_strlit("gbn");
    }
}

impl BlazeSite {
    pub open spec fn spec_blaze_service_name(self) -> Seq<char> {
        match self {
            BlazeSite::Ccp => CcpDefault::spec_balze_service_name(),
            BlazeSite::Bbmri => Bbmri::spec_balze_service_name(),
        }
    }

    /// The name of the site's store.
    pub fn blaze_service_name(self) -> (name: String)
        ensures
            name@ == self.spec_blaze_service_name(),
    {
        match self {
            BlazeSite::Ccp => CcpDefault::balze_service_name(),
            BlazeSite::Bbmri => Bbmri::balze_service_name(),
        }
    }

    pub open spec fn spec_prefix(self) -> Seq<char> {
        match self {
            BlazeSite::Ccp => "ccp"@,
            BlazeSite::Bbmri => "bbmri"@,
        }
    }

    /// The short name of the project.
    pub fn prefix(self) -> (name: String)
        ensures
            name@ == self.spec_prefix(),
    {
        match self {
            BlazeSite::Ccp => String::from_str("ccp"),
            BlazeSite::Bbmri => String::from_str("bbmri"),
        }
    }

    pub open spec fn spec_treafik_exposure(self) -> Option<(Seq<char>, Seq<char>)> {
        match self {
            BlazeSite::Ccp => CcpDefault::spec_treafik_exposure(),
            BlazeSite::Bbmri => Bbmri::spec_treafik_exposure(),
        }
    }

    /// Where the reverse proxy shows the site's store, if it does.
    pub fn treafik_exposure(self) -> (exposure: Option<BlazeTraefikConfig>)
        ensures
            crate::services::blaze::exposure_view(exposure) == self.spec_treafik_exposure(),
    {
        match self {
            BlazeSite::Ccp => CcpDefault::treafik_exposure(),
            BlazeSite::Bbmri => Bbmri::treafik_exposure(),
        }
    }
}

impl PgOwner {
    /// The name of the service that owns the database.
    pub open spec fn spec_owner_name(self) -> Seq<char> {
        match self {
            PgOwner::DataShield => "ccp-datashield"@,
            PgOwner::Exporter => "ccp-exporter"@,
            PgOwner::IdManagement => "ccp-id-management"@,
        }
    }

    pub fn owner_name(self) -> (name: String)
        ensures
            name@ == self.spec_owner_name(),
    {
        match self {
            PgOwner::DataShield => String::from_str("ccp-datashield"),
            PgOwner::Exporter => String::from_str("ccp-exporter"),
            PgOwner::IdManagement => String::from_str("ccp-id-management"),
        }
    }

    /// The service that owns the database.
    pub open spec fn spec_owner(self) -> ServiceId {
        match self {
            PgOwner::DataShield => ServiceId::DataShield,
            PgOwner::Exporter => ServiceId::Exporter,
            PgOwner::IdManagement => ServiceId::IdManagement,
        }
    }

    pub fn owner(self) -> (id: ServiceId)
        ensures
            id == self.spec_owner(),
    {
        match self {
            PgOwner::DataShield => ServiceId::DataShield,
            PgOwner::Exporter => ServiceId::Exporter,
            PgOwner::IdManagement => ServiceId::IdManagement,
        }
    }
}

/// Whether a service must be there before its dependent is built, or is
/// handed over only where it happens to be there.
#[derive(Clone, Copy, Debug, PartialEq, Eq, Structural)]
pub enum DepKind {
    Required,
    Optional,
}

/// One entry of a service's declaration of what it depends on.
#[derive(Clone, Copy, Debug, PartialEq, Eq, Structural)]
pub struct Dependency {
    pub id: ServiceId,
    pub kind: DepKind,
}

pub open spec fn required(id: ServiceId) -> Dependency {
    Dependency { id, kind: DepKind::Required }
}

pub open spec fn optional(id: ServiceId) -> Dependency {
    Dependency { id, kind: DepKind::Optional }
}

impl ServiceId {
    /// The name of the service, which is also the name of its manifest.
    pub open spec fn spec_service_name(self) -> Seq<char> {
        match self {
            ServiceId::Traefik => "traefik"@,
            ServiceId::ForwardProxy => "forward-proxy"@,
            ServiceId::BeamProxy(n) => n.spec_name() + "-beam-proxy"@,
            ServiceId::BeamConnect(n) => n.spec_name() + "-beam-connect"@,
            ServiceId::Blaze(s) => s.spec_blaze_service_name(),
            ServiceId::Focus(n, _) => n.spec_name() + "-focus"@,
            ServiceId::Postgres(o) => o.spec_owner_name() + "-db"@,
            ServiceId::DataShield => "ccp-datashield"@,
            ServiceId::Exporter => "ccp-exporter"@,
            ServiceId::DirectorySync(s) => s.spec_prefix() + "-directory-sync"@,
            ServiceId::DnpmNode => "dnpm-node"@,
            ServiceId::IdManagement => "ccp-id-management"@,
            ServiceId::Obds2Fhir => CcpDefault::spec_prefix() + "-obds2fhir-rest"@,
            ServiceId::Podest2Fhir => "ccp-podest2fhir"@,
            ServiceId::Teiler => "ccp-teiler"@,
            ServiceId::Transfair(_) => "transfair"@,
        }
    }

    pub fn service_name(self) -> (name: String)
        ensures
            name@ == self.spec_service_name(),
    {
        match self {
            ServiceId::Traefik => String::from_str("traefik"),
            ServiceId::ForwardProxy => String::from_str("forward-proxy"),
            ServiceId::BeamProxy(n) => concat2(n.name().as_str(), "-beam-proxy"),
            ServiceId::BeamConnect(n) => concat2(n.name().as_str(), "-beam-connect"),
            ServiceId::Blaze(s) => s.blaze_service_name(),
            ServiceId::Focus(n, _) => concat2(n.name().as_str(), "-focus"),
            ServiceId::Postgres(o) => concat2(o.owner_name().as_str(), "-db"),
            ServiceId::DataShield => String::from_str("ccp-datashield"),
            ServiceId::Exporter => String::from_str("ccp-exporter"),
            ServiceId::DirectorySync(s) => concat2(s.prefix().as_str(), "-directory-sync"),
            ServiceId::DnpmNode => String::from_str("dnpm-node"),
            ServiceId::IdManagement => String::from_str("ccp-id-management"),
            ServiceId::Obds2Fhir => concat2(CcpDefault::prefix().as_str(), "-obds2fhir-rest"),
            ServiceId::Podest2Fhir => String::from_str("ccp-podest2fhir"),
            ServiceId::Teiler => String::from_str("ccp-teiler"),
            ServiceId::Transfair(_) => String::from_str("transfair"),
        }
    }

    /// What the service depends on, in the order in which its constructor
    /// takes it.
    pub open spec fn spec_dependencies(self) -> Seq<Dependency> {
        match self {
            ServiceId::Traefik => seq![],
            ServiceId::ForwardProxy => seq![],
            ServiceId::BeamProxy(_) => seq![required(ServiceId::ForwardProxy)],
            ServiceId::BeamConnect(n) => seq![required(ServiceId::BeamProxy(n))],
            ServiceId::Blaze(_) => seq![required(ServiceId::Traefik)],
            ServiceId::Focus(n, s) => seq![
                required(ServiceId::BeamProxy(n)),
                required(ServiceId::Blaze(s)),
            ],
            ServiceId::Postgres(_) => seq![],
            ServiceId::DataShield => seq![
                required(ServiceId::ForwardProxy),
                required(ServiceId::Postgres(PgOwner::DataShield)),
                required(ServiceId::BeamProxy(Network::Ccp)),
                required(ServiceId::BeamConnect(Network::Ccp)),
            ],
            ServiceId::Exporter => seq![
                required(ServiceId::Focus(Network::Ccp, BlazeSite::Ccp)),
                required(ServiceId::Postgres(PgOwner::Exporter)),
                optional(ServiceId::DataShield),
            ],
            ServiceId::DirectorySync(s) => seq![required(ServiceId::Blaze(s))],
            ServiceId::DnpmNode => seq![],
            ServiceId::IdManagement => seq![
                required(ServiceId::Traefik),
                required(ServiceId::ForwardProxy),
                required(ServiceId::Postgres(PgOwner::IdManagement)),
            ],
            ServiceId::Obds2Fhir => seq![required(ServiceId::Traefik)],
            ServiceId::Podest2Fhir => seq![required(ServiceId::Blaze(BlazeSite::Ccp))],
            ServiceId::Teiler => seq![required(ServiceId::ForwardProxy)],
            ServiceId::Transfair(s) => seq![required(ServiceId::Blaze(s))],
        }
    }

    pub fn dependencies(self) -> (deps: Vec<Dependency>)
        ensures
            deps@ == self.spec_dependencies(),
    {
        let mut deps: Vec<Dependency> = Vec::new();
        let r = DepKind::Required;
        match self {
            ServiceId::Traefik => {},
            ServiceId::ForwardProxy => {},
            ServiceId::BeamProxy(_) => {
                deps.push(Dependency { id: ServiceId::ForwardProxy, kind: r });
            },
            ServiceId::BeamConnect(n) => {
                deps.push(Dependency { id: ServiceId::BeamProxy(n), kind: r });
            },
            ServiceId::Blaze(_) => {
                deps.push(Dependency { id: ServiceId::Traefik, kind: r });
            },
            ServiceId::Focus(n, s) => {
                deps.push(Dependency { id: ServiceId::BeamProxy(n), kind: r });
                deps.push(Dependency { id: ServiceId::Blaze(s), kind: r });
            },
            ServiceId::Postgres(_) => {},
            ServiceId::DataShield => {
                deps.push(Dependency { id: ServiceId::ForwardProxy, kind: r });
                deps.push(Dependency { id: ServiceId::Postgres(PgOwner::DataShield), kind: r });
                deps.push(Dependency { id: ServiceId::BeamProxy(Network::Ccp), kind: r });
                deps.push(Dependency { id: ServiceId::BeamConnect(Network::Ccp), kind: r });
            },
            ServiceId::Exporter => {
                deps.push(
                    Dependency { id: ServiceId::Focus(Network::Ccp, BlazeSite::Ccp), kind: r },
                );
                deps.push(Dependency { id: ServiceId::Postgres(PgOwner::Exporter), kind: r });
                deps.push(Dependency { id: ServiceId::DataShield, kind: DepKind::Optional });
            },
            ServiceId::DirectorySync(s) => {
                deps.push(Dependency { id: ServiceId::Blaze(s), kind: r });
            },
            ServiceId::DnpmNode => {},
            ServiceId::IdManagement => {
                deps.push(Dependency { id: ServiceId::Traefik, kind: r });
                deps.push(Dependency { id: ServiceId::ForwardProxy, kind: r });
                deps.push(Dependency { id: ServiceId::Postgres(PgOwner::IdManagement), kind: r });
            },
            ServiceId::Obds2Fhir => {
                deps.push(Dependency { id: ServiceId::Traefik, kind: r });
            },
            ServiceId::Podest2Fhir => {
                deps.push(Dependency { id: ServiceId::Blaze(BlazeSite::Ccp), kind: r });
            },
            ServiceId::Teiler => {
                deps.push(Dependency { id: ServiceId::ForwardProxy, kind: r });
            },
            ServiceId::Transfair(s) => {
                deps.push(Dependency { id: ServiceId::Blaze(s), kind: r });
            },
        }
        assert(deps@ =~= self.spec_dependencies());
        deps
    }

    /// A service can be built without a section of its own in the declared
    /// document where its configuration is the site's, or nothing.
    pub open spec fn spec_default_creatable(self) -> bool {
        match self {
            ServiceId::Traefik
            | ServiceId::ForwardProxy
            | ServiceId::BeamProxy(_)
            | ServiceId::BeamConnect(_)
            | ServiceId::Blaze(_)
            | ServiceId::Focus(_, _)
            | ServiceId::Postgres(_)
            | ServiceId::DataShield
            | ServiceId::Exporter => true,
            _ => false,
        }
    }

    pub fn default_creatable(self) -> (b: bool)
        ensures
            b == self.spec_default_creatable(),
    {
        match self {
            ServiceId::Traefik
            | ServiceId::ForwardProxy
            | ServiceId::BeamProxy(_)
            | ServiceId::BeamConnect(_)
            | ServiceId::Blaze(_)
            | ServiceId::Focus(_, _)
            | ServiceId::Postgres(_)
            | ServiceId::DataShield
            | ServiceId::Exporter => true,
            _ => false,
        }
    }

    /// How deep the service stands above the services that depend on
    /// nothing.
    pub open spec fn rank(self) -> nat {
        match self {
            ServiceId::Traefik => 0,
            ServiceId::ForwardProxy => 0,
            ServiceId::Postgres(_) => 0,
            ServiceId::DnpmNode => 0,
            ServiceId::BeamProxy(_) => 1,
            ServiceId::Blaze(_) => 1,
            ServiceId::Obds2Fhir => 1,
            ServiceId::Teiler => 1,
            ServiceId::IdManagement => 1,
            ServiceId::BeamConnect(_) => 2,
            ServiceId::Focus(_, _) => 2,
            ServiceId::DirectorySync(_) => 2,
            ServiceId::Podest2Fhir => 2,
            ServiceId::Transfair(_) => 2,
            ServiceId::DataShield => 3,
            ServiceId::Exporter => 4,
        }
    }

    /// `self` cannot be built without `other`: they are the same, or `self`
    /// requires a service that cannot be built without `other`.
    pub open spec fn depends_on(self, other: ServiceId) -> bool
        decreases self.rank(),
    {
        self == other || exists|i: int|
            0 <= i < self.spec_dependencies().len() && (
            #[trigger] self.spec_dependencies()[i]).kind == DepKind::Required
                && self.spec_dependencies()[i].id.rank() < self.rank()
                && self.spec_dependencies()[i].id.depends_on(other)
    }

    /// What a service cannot be built without stands no higher than the
    /// service.
    pub proof fn lemma_depends_on_rank(self, other: ServiceId)
        requires
            self.depends_on(other),
        ensures
            other.rank() <= self.rank(),
            other != self ==> other.rank() < self.rank(),
        decreases self.rank(),
    {
        if self != other {
            let i = choose|i: int|
                0 <= i < self.spec_dependencies().len() && (
                #[trigger] self.spec_dependencies()[i]).kind == DepKind::Required
                    && self.spec_dependencies()[i].id.rank() < self.rank()
                    && self.spec_dependencies()[i].id.depends_on(other);
            self.spec_dependencies()[i].id.lemma_depends_on_rank(other);
        }
    }

    /// What a required dependency cannot be built without, the service
    /// cannot be built without either.
    pub proof fn lemma_depends_on_step(self, i: int, other: ServiceId)
        requires
            0 <= i < self.spec_dependencies().len(),
            self.spec_dependencies()[i].kind == DepKind::Required,
            self.spec_dependencies()[i].id.depends_on(other),
        ensures
            self.depends_on(other),
    {
        self.lemma_dependencies();
    }

    /// The network through which the service talks, if it talks through one.
    pub fn network(self) -> (n: Option<Network>)
        ensures
            n == self.spec_network(),
    {
        match self {
            ServiceId::BeamProxy(n) => Some(n),
            ServiceId::DataShield => Some(Network::Ccp),
            _ => None,
        }
    }

    pub open spec fn spec_network(self) -> Option<Network> {
        match self {
            ServiceId::BeamProxy(n) => Some(n),
            ServiceId::DataShield => Some(Network::Ccp),
            _ => None,
        }
    }

    /// The names of the services are plain names.
    pub proof fn lemma_service_name_plain(self)
        ensures
            is_plain(self.spec_service_name()),
    {
        reveal_strlit("ccp");
        reveal_strlit("eric");
        reveal_strlit("gbn");
        reveal_strlit("bbmri");
        reveal_strlit("traefik");
        reveal_strlit("forward-proxy");
        reveal_strlit("-beam-proxy");
        reveal_strlit("-beam-connect");
        reveal_strlit("ccp-blaze");
        reveal_strlit("bbmri-blaze");
        reveal_strlit("-focus");
        reveal_strlit("-db");
        reveal_strlit("ccp-datashield");
        reveal_strlit("ccp-exporter");
        reveal_strlit("-directory-sync");
        reveal_strlit("dnpm-node");
        reveal_strlit("ccp-id-management");
        reveal_strlit("-obds2fhir-rest");
        reveal_strlit("ccp-podest2fhir");
        reveal_strlit("ccp-teiler");
        reveal_strlit("transfair");
        match self {
            ServiceId::BeamProxy(n) => {
                crate::utils::lemma_plain_concat(n.spec_name(), "-beam-proxy"@);
            },
            ServiceId::BeamConnect(n) => {
                crate::utils::lemma_plain_concat(n.spec_name(), "-beam-connect"@);
            },
            ServiceId::Focus(n, _) => {
                crate::utils::lemma_plain_concat(n.spec_name(), "-focus"@);
            },
            ServiceId::Postgres(o) => {
                crate::utils::lemma_plain_concat(o.spec_owner_name(), "-db"@);
            },
            ServiceId::DirectorySync(s) => {
                crate::utils::lemma_plain_concat(s.spec_prefix(), "-directory-sync"@);
            },
            ServiceId::Obds2Fhir => {
                crate::utils::lemma_plain_concat(CcpDefault::spec_prefix(), "-obds2fhir-rest"@);
            },
            _ => {},
        }
    }

    /// What holds of every declaration: no service stands twice in it, none
    /// depends on itself, every service in it stands lower than the one that
    /// declares it, and every required one can be built by default.
    pub proof fn lemma_dependencies(self)
        ensures
            self.spec_dependencies().len() <= 4,
            forall|i: int, j: int|
                0 <= i < j < self.spec_dependencies().len() ==> self.spec_dependencies()[i].id
                    != self.spec_dependencies()[j].id,
            forall|i: int|
                0 <= i < self.spec_dependencies().len() ==> {
                    &&& (#[trigger] self.spec_dependencies()[i]).id != self
                    &&& self.spec_dependencies()[i].id.rank() < self.rank()
                    &&& self.spec_dependencies()[i].kind == DepKind::Required
                        ==> self.spec_dependencies()[i].id.spec_default_creatable()
                },
    {
    }
}

} // verus!

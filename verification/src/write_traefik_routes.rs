//! The route files by which traefik reaches seedlings.

use crate::document::{
    field, lemma_fields, list1, record1, record2, record3, text, to_yaml, well_keyed, yaml_of, Document, DocumentView,
};
use crate::modes::Modes;
use crate::names::{
    container_name, container_name_of, seedling_network_name, traefik, ContainerName, Name, TRAEFIK,
};
use crate::paths::{
    dynamic_dir_of, route_file, route_file_of, traefik_dynamic_dir, DouglasFolders,
};
use crate::rolodex::ServiceAccount;
use crate::seedling::{PortSpec, RouteSpec, Routing};
use crate::text::{cat3, cat4, decimal, decimal_text};
use vstd::prelude::*;

verus! {

/// Why routes could not be written.
#[derive(Debug)]
pub enum WriteTraefikRoutesError {
    MissingServiceAccount,
    Yaml(serde_yaml_ng::Error),
}

/// One thing that writing routes does.
#[derive(Debug, PartialEq, Eq)]
pub enum RouteAction<'a> {
    CreateFolder { path: String },
    ChangeOwnership { path: String, account: &'a ServiceAccount },
    ChangeMode { path: String, mode: Modes },
    WriteFile { path: String, contents: String },
    ConnectNetwork { network: ContainerName, container: ContainerName },
}

/// One thing that writing routes does, in texts.
pub enum RouteActionView {
    CreateFolder { path: Seq<char> },
    ChangeOwnership { path: Seq<char>, user: Seq<char>, group: Seq<char> },
    ChangeMode { path: Seq<char>, mode: Modes },
    WriteFile { path: Seq<char>, contents: Seq<char> },
    ConnectNetwork { network: Seq<char>, container: Seq<char> },
}

impl<'a> View for RouteAction<'a> {
    type V = RouteActionView;

    open spec fn view(&self) -> RouteActionView {
        match self {
            RouteAction::CreateFolder { path } => RouteActionView::CreateFolder { path: path@ },
            RouteAction::ChangeOwnership { path, account } => RouteActionView::ChangeOwnership {
                path: path@,
                user: account.user.system_name@,
                group: account.group.system_name@,
            },
            RouteAction::ChangeMode { path, mode } => RouteActionView::ChangeMode {
                path: path@,
                mode: *mode,
            },
            RouteAction::WriteFile { path, contents } => RouteActionView::WriteFile {
                path: path@,
                contents: contents@,
            },
            RouteAction::ConnectNetwork { network, container } => RouteActionView::ConnectNetwork {
                network: network@,
                container: container@,
            },
        }
    }
}

/// Actions, in texts.
pub open spec fn shown<'a>(actions: Seq<RouteAction<'a>>) -> Seq<RouteActionView> {
    actions.map_values(|action: RouteAction<'a>| action@)
}

/// How the folder of route files is made ready: it is traefik's, and what is put in it stays in
/// traefik's group.
pub open spec fn preparation(root: Seq<char>, account: ServiceAccount) -> Seq<RouteActionView> {
    seq![
        RouteActionView::CreateFolder { path: dynamic_dir_of(root) },
        RouteActionView::ChangeOwnership {
            path: dynamic_dir_of(root),
            user: account.user.system_name@,
            group: account.group.system_name@,
        },
        RouteActionView::ChangeMode {
            path: dynamic_dir_of(root),
            mode: Modes::InheritedOwnerReadWriteExecuteGroupReadWriteExecute,
        },
    ]
}

/// Makes the folder of route files ready. Without a service account for traefik there is nobody
/// to give it to.
pub fn prepare_routes<'a>(folders: &DouglasFolders, account: Option<&'a ServiceAccount>) -> (r:
    Result<Vec<RouteAction<'a>>, WriteTraefikRoutesError>)
    ensures
        match account {
            Some(account) => r matches Ok(actions) && shown(actions@) == preparation(
                folders.seedlings_root@,
                *account,
            ),
            None => r == Err::<Vec<RouteAction<'a>>, WriteTraefikRoutesError>(
                WriteTraefikRoutesError::MissingServiceAccount,
            ),
        },
{
    match account {
        Some(account) => {
            let actions: Vec<RouteAction<'a>> = vec![
                RouteAction::CreateFolder { path: traefik_dynamic_dir(folders) },
                RouteAction::ChangeOwnership { path: traefik_dynamic_dir(folders), account },
                RouteAction::ChangeMode {
                    path: traefik_dynamic_dir(folders),
                    mode: Modes::InheritedOwnerReadWriteExecuteGroupReadWriteExecute,
                },
            ];
            assert(shown(actions@) =~= preparation(folders.seedlings_root@, *account));
            Ok(actions)
        },
        None => Err(WriteTraefikRoutesError::MissingServiceAccount),
    }
}

/// The rule by which traefik knows requests for a seedling.
pub open spec fn rule_of(name: Seq<char>, route: RouteSpec) -> Seq<char> {
    match route {
        RouteSpec::Root => "Host(`localhost`)"@,
        RouteSpec::Subdomain => "Host(`"@ + name + ".localhost`)"@,
    }
}

/// The configuration that routes a seedling: requests under its host go to the public port of its
/// container.
pub open spec fn route_config(
    name: Seq<char>,
    route: RouteSpec,
    port: u16,
    container: Seq<char>,
) -> DocumentView {
    DocumentView::Record(
        seq![
            (
                "http"@,
                DocumentView::Record(
                    seq![
                        (
                            "routers"@,
                            DocumentView::Record(seq![(name, router_config(name, route))]),
                        ),
                        (
                            "services"@,
                            DocumentView::Record(seq![(name, service_config(port, container))]),
                        ),
                    ],
                ),
            ),
        ],
    )
}

/// Which requests are a seedling's.
pub open spec fn router_config(name: Seq<char>, route: RouteSpec) -> DocumentView {
    DocumentView::Record(
        seq![
            ("rule"@, DocumentView::Text(rule_of(name, route))),
            ("entryPoints"@, DocumentView::List(seq![DocumentView::Text("web"@)])),
            ("service"@, DocumentView::Text(name)),
        ],
    )
}

/// Where a seedling's requests go.
pub open spec fn service_config(port: u16, container: Seq<char>) -> DocumentView {
    DocumentView::Record(
        seq![
            (
                "loadBalancer"@,
                DocumentView::Record(
                    seq![
                        (
                            "servers"@,
                            DocumentView::List(
                                seq![
                                    DocumentView::Record(
                                        seq![
                                            (
                                                "url"@,
                                                DocumentView::Text(
                                                    "http://"@ + container + ":"@ + decimal(
                                                        port as nat,
                                                    ),
                                                ),
                                            ),
                                        ],
                                    ),
                                ],
                            ),
                        ),
                    ],
                ),
            ),
        ],
    )
}

/// The configuration that routes a seedling.
pub fn route_document(name: &Name, route: RouteSpec, ports: &PortSpec, container: &str) -> (r:
    Document)
    ensures
        r@ == route_config(name@, route, ports.public, container@),
        well_keyed(r@),
{
    proof {
        reveal_strlit("rule");
        reveal_strlit("entryPoints");
        reveal_strlit("service");
        reveal_strlit("routers");
        reveal_strlit("services");
        assert("rule"@.len() == 4 && "entryPoints"@.len() == 11 && "service"@.len() == 7);
        assert("routers"@.len() == 7 && "services"@.len() == 8);
    }
    let rule: String = match route {
        RouteSpec::Root => "Host(`localhost`)".to_owned(),
        RouteSpec::Subdomain => cat3("Host(`", name.as_str(), ".localhost`)"),
    };
    let url: String = cat4("http://", container, ":", &decimal_text(ports.public as u64));
    let router: Document = record3(
        "rule",
        text(&rule),
        "entryPoints",
        list1(text("web")),
        "service",
        text(name.as_str()),
    );
    let service: Document = record1(
        "loadBalancer",
        record1("servers", list1(record1("url", text(&url)))),
    );
    record1(
        "http",
        record2(
            "routers",
            record1(name.as_str(), router),
            "services",
            record1(name.as_str(), service),
        ),
    )
}

/// The route file of a seedling.
pub fn render_route(name: &Name, route: RouteSpec, ports: &PortSpec, container: &str) -> (r: Result<
    String,
    serde_yaml_ng::Error,
>)
    ensures
        r is Ok == yaml_of(route_config(name@, route, ports.public, container@)) is Some,
        r matches Ok(contents) ==> yaml_of(
            route_config(name@, route, ports.public, container@),
        ) == Some(contents@),
{
    let document: Document = route_document(name, route, ports, container);
    to_yaml(&document)
}

/// How a seedling's route is put in place once its file is rendered: the file is written for
/// traefik to read, and traefik joins the seedling's network.
pub open spec fn placement(
    root: Seq<char>,
    account: ServiceAccount,
    name: Seq<char>,
    contents: Seq<char>,
) -> Seq<RouteActionView> {
    seq![
        RouteActionView::WriteFile { path: route_file_of(root, name), contents },
        RouteActionView::ChangeOwnership {
            path: route_file_of(root, name),
            user: account.user.system_name@,
            group: account.group.system_name@,
        },
        RouteActionView::ChangeMode {
            path: route_file_of(root, name),
            mode: Modes::OwnerReadWriteGroupRead,
        },
        RouteActionView::ConnectNetwork {
            network: container_name_of(name),
            container: container_name_of(TRAEFIK@),
        },
    ]
}

/// Puts a seedling's route in place once its file is rendered.
pub fn place_route<'a>(
    folders: &DouglasFolders,
    account: &'a ServiceAccount,
    name: &Name,
    contents: String,
) -> (r: Vec<RouteAction<'a>>)
    ensures
        shown(r@) == placement(folders.seedlings_root@, *account, name@, contents@),
{
    let actions: Vec<RouteAction<'a>> = vec![
        RouteAction::WriteFile { path: route_file(folders, name), contents },
        RouteAction::ChangeOwnership { path: route_file(folders, name), account },
        RouteAction::ChangeMode {
            path: route_file(folders, name),
            mode: Modes::OwnerReadWriteGroupRead,
        },
        RouteAction::ConnectNetwork {
            network: seedling_network_name(name),
            container: container_name(&traefik()),
        },
    ];
    assert(shown(actions@) =~= placement(folders.seedlings_root@, *account, name@, contents@));
    actions
}

/// What is to be done next about a seedling's route.
#[derive(Debug, PartialEq, Eq)]
pub enum RouteStep<'a> {
    /// The seedling gets no route.
    Skip,
    /// Whether this network exists has to be found out first.
    AskNetwork(ContainerName),
    /// The route is put in place.
    Place(Vec<RouteAction<'a>>),
}

/// Decides on a seedling's route. One that is not routed gets none, and neither does one that was
/// not reconciled yet, which shows in that its network does not exist.
pub fn write_route<'a>(
    folders: &DouglasFolders,
    account: &'a ServiceAccount,
    name: &Name,
    routing: &Routing,
    network_exists: Option<bool>,
) -> (r: Result<RouteStep<'a>, WriteTraefikRoutesError>)
    ensures
        match routing {
            Routing::Unrouted => r == Ok::<RouteStep<'a>, WriteTraefikRoutesError>(
                RouteStep::Skip,
            ),
            Routing::Routed { route, ports } => match network_exists {
                None => r matches Ok(RouteStep::AskNetwork(network)) && network@
                    == container_name_of(name@),
                Some(false) => r == Ok::<RouteStep<'a>, WriteTraefikRoutesError>(RouteStep::Skip),
                Some(true) => match yaml_of(
                    route_config(name@, *route, ports.public, container_name_of(name@)),
                ) {
                    Some(contents) => r matches Ok(RouteStep::Place(actions)) && shown(actions@)
                        == placement(folders.seedlings_root@, *account, name@, contents),
                    None => r matches Err(WriteTraefikRoutesError::Yaml(_)),
                },
            },
        },
{
    let (route, ports): (RouteSpec, &PortSpec) = match routing {
        Routing::Unrouted => return Ok(RouteStep::Skip),
        Routing::Routed { route, ports } => (*route, ports),
    };
    match network_exists {
        None => Ok(RouteStep::AskNetwork(seedling_network_name(name))),
        Some(exists_already) => {
            if !exists_already {
                return Ok(RouteStep::Skip);
            }
            let container: ContainerName = container_name(name);
            match render_route(name, route, ports, container.as_str()) {
                Ok(contents) => Ok(
                    RouteStep::Place(place_route(folders, account, name, contents)),
                ),
                Err(error) => Err(WriteTraefikRoutesError::Yaml(error)),
            }
        },
    }
}

/// Seedlings under subdomains of their own are told apart by their rules, and none has the rule of
/// the root.
pub proof fn law_rules_tell_seedlings_apart(a: Seq<char>, b: Seq<char>)
    requires
        a != b,
    ensures
        rule_of(a, RouteSpec::Subdomain) != rule_of(b, RouteSpec::Subdomain),
        rule_of(a, RouteSpec::Subdomain) != rule_of(a, RouteSpec::Root),
{
    reveal_strlit("Host(`");
    reveal_strlit(".localhost`)");
    reveal_strlit("Host(`localhost`)");
    let ra = rule_of(a, RouteSpec::Subdomain);
    let rb = rule_of(b, RouteSpec::Subdomain);
    if ra == rb {
        assert(ra.len() == 6 + a.len() + 12);
        assert(rb.len() == 6 + b.len() + 12);
        assert(a =~= ra.subrange(6, 6 + a.len() as int));
        assert(b =~= rb.subrange(6, 6 + b.len() as int));
    }
    assert(ra.len() > "Host(`localhost`)"@.len());
}

/// Requests for a seedling reach its container: the one router answers to the seedling's host, the
/// service that it names is there, and that service has one server, the container's public port.
/// This holds of seedlings under the root and under subdomains alike.
pub proof fn law_routes_lead_to_the_container(
    name: Seq<char>,
    route: RouteSpec,
    port: u16,
    container: Seq<char>,
)
    ensures
        ({
            let http = field(route_config(name, route, port, container), "http"@)->0;
            let routers = field(http, "routers"@)->0;
            let services = field(http, "services"@)->0;
            let router = field(routers, name)->0;
            let server = "http://"@ + container + ":"@ + decimal(port as nat);
            &&& field(route_config(name, route, port, container), "http"@) is Some
            &&& field(http, "routers"@) is Some
            &&& field(http, "services"@) is Some
            &&& routers matches DocumentView::Record(fields) && fields.len() == 1
            &&& services matches DocumentView::Record(fields) && fields.len() == 1
            &&& field(routers, name) is Some
            &&& field(router, "rule"@) == Some(
                DocumentView::Text(
                    match route {
                        RouteSpec::Root => "Host(`localhost`)"@,
                        RouteSpec::Subdomain => "Host(`"@ + name + ".localhost`)"@,
                    },
                ),
            )
            &&& field(router, "entryPoints"@) == Some(
                DocumentView::List(seq![DocumentView::Text("web"@)]),
            )
            &&& (field(router, "service"@) matches Some(DocumentView::Text(service)) && (field(
                services,
                service,
            ) matches Some(found) && (field(found, "loadBalancer"@) matches Some(balancer) && field(
                balancer,
                "servers"@,
            ) == Some(
                DocumentView::List(
                    seq![DocumentView::Record(seq![("url"@, DocumentView::Text(server))])],
                ),
            ))))
        }),
{
    reveal_strlit("rule");
    reveal_strlit("entryPoints");
    reveal_strlit("service");
    reveal_strlit("routers");
    reveal_strlit("services");
    assert("rule"@.len() == 4 && "entryPoints"@.len() == 11 && "service"@.len() == 7);
    assert("routers"@.len() == 7 && "services"@.len() == 8);
    let router = router_config(name, route);
    let service = service_config(port, container);
    let routers = ("routers"@, DocumentView::Record(seq![(name, router)]));
    let services = ("services"@, DocumentView::Record(seq![(name, service)]));
    let http = ("http"@, DocumentView::Record(seq![routers, services]));
    let rule = ("rule"@, DocumentView::Text(rule_of(name, route)));
    let points = ("entryPoints"@, DocumentView::List(seq![DocumentView::Text("web"@)]));
    let goes_to = ("service"@, DocumentView::Text(name));
    lemma_fields(http, http, http);
    lemma_fields(routers, services, services);
    lemma_fields((name, router), (name, router), (name, router));
    lemma_fields((name, service), (name, service), (name, service));
    lemma_fields(rule, points, goes_to);
    let url = "http://"@ + container + ":"@ + decimal(port as nat);
    let servers = (
        "servers"@,
        DocumentView::List(
            seq![DocumentView::Record(seq![("url"@, DocumentView::Text(url))])],
        ),
    );
    let balancer = ("loadBalancer"@, DocumentView::Record(seq![servers]));
    lemma_fields(servers, servers, servers);
    lemma_fields(balancer, balancer, balancer);
}

/// The folder of route files belongs to traefik's account from the start, and what is put into it
/// stays with traefik's group.
pub proof fn law_route_files_are_traefiks(root: Seq<char>, account: ServiceAccount, i: int)
    requires
        0 <= i < preparation(root, account).len(),
    ensures
        preparation(root, account).len() == 3,
        match preparation(root, account)[i] {
            RouteActionView::CreateFolder { path } => i == 0 && path == dynamic_dir_of(root),
            RouteActionView::ChangeOwnership { path, user, group } => i == 1 && path
                == dynamic_dir_of(root) && user == account.user.system_name@ && group
                == account.group.system_name@,
            RouteActionView::ChangeMode { path, mode } => i == 2 && path == dynamic_dir_of(root)
                && mode == Modes::InheritedOwnerReadWriteExecuteGroupReadWriteExecute,
            _ => false,
        },
{
}

/// A route is put in place by writing the seedling's own route file and no other, giving it to
/// traefik, and then letting traefik into the seedling's network.
pub proof fn law_placing_a_route_touches_only_its_file(
    root: Seq<char>,
    account: ServiceAccount,
    name: Seq<char>,
    contents: Seq<char>,
    i: int,
)
    requires
        0 <= i < placement(root, account, name, contents).len(),
    ensures
        placement(root, account, name, contents).len() == 4,
        match placement(root, account, name, contents)[i] {
            RouteActionView::WriteFile { path, contents: written } => i == 0 && path
                == route_file_of(root, name) && written == contents,
            RouteActionView::ChangeOwnership { path, user, group } => i == 1 && path
                == route_file_of(root, name) && user == account.user.system_name@ && group
                == account.group.system_name@,
            RouteActionView::ChangeMode { path, mode } => i == 2 && path == route_file_of(
                root,
                name,
            ) && mode == Modes::OwnerReadWriteGroupRead,
            RouteActionView::ConnectNetwork { network, container } => i == 3 && network == "doug."@
                + name && container == "doug."@ + "traefik"@,
            RouteActionView::CreateFolder { .. } => false,
        },
{
}

} // verus!

use douglas::modes::Modes;
use douglas::names::{container_name, Name};
use douglas::paths::DouglasFolders;
use douglas::rolodex::{Credential, ServiceAccount};
use douglas::seedling::{PortSpec, RouteSpec, Routing};
use douglas::write_traefik_routes::{
    place_route, prepare_routes, render_route, write_route, RouteAction, RouteStep,
    WriteTraefikRoutesError,
};

fn name(value: &str) -> Name {
    Name::parse(value).expect("valid name")
}

fn folders() -> DouglasFolders {
    DouglasFolders {
        logs: "/var/log/douglas".to_string(),
        transients: "/run/douglas".to_string(),
        configs: "/etc/douglas".to_string(),
        seedlings_root: "/var/lib/douglas".to_string(),
        identity: "/var/lib/douglas-identity".to_string(),
    }
}

fn account() -> ServiceAccount {
    ServiceAccount {
        user: Credential {
            id: 1,
            full_name: "traefik".to_string(),
            system_name: "doug-traefik-u".to_string(),
        },
        group: Credential {
            id: 2,
            full_name: "traefik".to_string(),
            system_name: "doug-traefik-g".to_string(),
        },
    }
}

fn ports() -> PortSpec {
    PortSpec {
        public: 3000,
        additional: Vec::new(),
    }
}

/// The value at a path of keys.
fn at<'a>(document: &'a serde_yaml_ng::Value, keys: &[&str]) -> &'a serde_yaml_ng::Value {
    keys.iter().fold(document, |value, key| {
        value.get(*key).expect("the key is there")
    })
}

#[test]
fn test_render_route_should_produce_a_root_router_and_service() {
    let result = render_route(
        &name("hello-world"),
        RouteSpec::Root,
        &ports(),
        "doug.hello-world",
    )
    .expect("should serialize");

    assert_eq!(
        result,
        "http:\n  routers:\n    hello-world:\n      rule: Host(`localhost`)\n      entryPoints:\n      - web\n      service: hello-world\n  services:\n    hello-world:\n      loadBalancer:\n        servers:\n        - url: http://doug.hello-world:3000\n"
    );
}

#[test]
fn test_render_route_should_produce_a_subdomain_host_rule() {
    let rendered = render_route(
        &name("second-app"),
        RouteSpec::Subdomain,
        &ports(),
        "doug.second-app",
    )
    .expect("should serialize");
    let parsed: serde_yaml_ng::Value =
        serde_yaml_ng::from_str(&rendered).expect("should parse back");

    assert_eq!(
        at(&parsed, &["http", "routers", "second-app", "rule"]).as_str(),
        Some("Host(`second-app.localhost`)")
    );
}

#[test]
fn test_render_route_should_round_trip_through_yaml() {
    let rendered = render_route(
        &name("hello-world"),
        RouteSpec::Root,
        &ports(),
        "doug.hello-world",
    )
    .expect("should serialize");
    let parsed: serde_yaml_ng::Value =
        serde_yaml_ng::from_str(&rendered).expect("should parse back");

    assert_eq!(
        at(&parsed, &["http", "routers", "hello-world", "service"]).as_str(),
        Some("hello-world")
    );
    assert_eq!(
        at(
            &parsed,
            &["http", "services", "hello-world", "loadBalancer", "servers"]
        )
        .get(0)
        .expect("a server")
        .get("url")
        .expect("a url")
        .as_str(),
        Some("http://doug.hello-world:3000")
    );
}

#[test]
fn test_the_folder_of_routes_is_given_to_traefik() {
    let account = account();
    let dir = "/var/lib/douglas/mounts/traefik/config/dynamic".to_string();

    let actions = prepare_routes(&folders(), Some(&account)).expect("there is an account");

    assert_eq!(
        actions,
        vec![
            RouteAction::CreateFolder { path: dir.clone() },
            RouteAction::ChangeOwnership {
                path: dir.clone(),
                account: &account
            },
            RouteAction::ChangeMode {
                path: dir,
                mode: Modes::InheritedOwnerReadWriteExecuteGroupReadWriteExecute
            },
        ]
    );
}

#[test]
fn test_without_a_service_account_no_routes_are_written() {
    assert!(matches!(
        prepare_routes(&folders(), None),
        Err(WriteTraefikRoutesError::MissingServiceAccount)
    ));
}

#[test]
fn test_unrouted_and_unreconciled_seedlings_get_no_route() {
    let account = account();
    let routed = Routing::Routed {
        route: RouteSpec::Root,
        ports: ports(),
    };
    let seedling = name("hello-world");

    let unrouted = write_route(&folders(), &account, &seedling, &Routing::Unrouted, None);
    assert!(matches!(unrouted, Ok(RouteStep::Skip)));
    let unasked = write_route(&folders(), &account, &seedling, &routed, None);
    assert_eq!(
        unasked.expect("nothing is rendered yet"),
        RouteStep::AskNetwork(container_name(&seedling))
    );
    let unreconciled = write_route(&folders(), &account, &seedling, &routed, Some(false));
    assert!(matches!(unreconciled, Ok(RouteStep::Skip)));
}

#[test]
fn test_a_route_is_written_before_traefik_joins_the_network() {
    let account = account();
    let seedling = name("hello-world");
    let routed = Routing::Routed {
        route: RouteSpec::Root,
        ports: ports(),
    };
    let contents = render_route(&seedling, RouteSpec::Root, &ports(), "doug.hello-world")
        .expect("should serialize");

    let step = write_route(&folders(), &account, &seedling, &routed, Some(true));

    let path = "/var/lib/douglas/mounts/traefik/config/dynamic/hello-world.yml".to_string();
    let expected = vec![
        RouteAction::WriteFile {
            path: path.clone(),
            contents: contents.clone(),
        },
        RouteAction::ChangeOwnership {
            path: path.clone(),
            account: &account,
        },
        RouteAction::ChangeMode {
            path,
            mode: Modes::OwnerReadWriteGroupRead,
        },
        RouteAction::ConnectNetwork {
            network: container_name(&seedling),
            container: container_name(&name("traefik")),
        },
    ];
    assert_eq!(
        place_route(&folders(), &account, &seedling, contents),
        expected
    );
    assert_eq!(step.expect("should render"), RouteStep::Place(expected));
}

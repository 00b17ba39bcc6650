# douglas

A small container orchestrator. Applications, called seedlings, are declared once; douglas
builds their containers and mounts, gives them accounts of their own, routes requests to them,
lets them at their secrets and nobody else's, watches over them, and cleans up after them.

This crate decides. What is to be asked next, what is to be done next and in which order, what
a failure means, what is refused and in which words: all of that stands in `src/`, with
contracts that Verus proves. Nothing in `src/` touches the machine. Decisions come out as plain
values (plans, scripts, questions), and what was seen comes back in as plain values.

## Layout

- `src/reconcile_seedling.rs`, `reconcile_discovery.rs`, `build_container.rs`: bringing a
  seedling in line with its declaration.
- `src/start_seedling.rs`, `stop_seedling.rs`, `new_seedling.rs`, `drop_seedling.rs`,
  `watchdog.rs`: the life of a seedling.
- `src/find_deadwood.rs`, `find_orphans.rs`, `prune.rs`, `rotate_seedling_logs.rs`: cleaning up.
- `src/provision_seedling_secrets.rs`, `openbao_status.rs`: secrets.
- `src/write_traefik_routes.rs`: routes.
- `src/bootstrap.rs`, `system_bootstrap.rs`, `service.rs`, `commands.rs`, `listener.rs`: getting
  the machine ready.
- `src/rolodex.rs`, `naming.rs`, `names.rs`, `labels.rs`, `encoding.rs`: names and accounts.
- `src/executor.rs`, `script.rs`, `history.rs`: carrying plans out and undoing them.
- `src/server.rs`, `connection.rs`, `protocol.rs`, `client.rs`: the service and who asks it.
- `src/application_definition.rs`: declarations kept as files.
- `src/document.rs`, `text.rs`, `paths.rs`, `docker.rs`, `seedling.rs`, `modes.rs`: what the rest
  is written in.
- `app/`: ordinary Rust that looks at the machine and carries out what was decided.
- `tests/`: tests of the library as its users see it.

## What is trusted

`src/document.rs` believes of `serde_json` and `serde_yaml_ng` how their values are put together,
and that the text they write depends on the value alone. `src/naming.rs` believes of `sha2` that
a digest has 32 bytes and depends on the bytes alone. `src/text.rs` believes of the standard
library what pushing a character does, and that the debug text of a text depends on the text
alone. Everything else is proved.

Functions whose names begin with `law_` state what holds of several parts together.

# libe_desk

The logic of Libe Desk, a desktop shell that shows the Libe City services in tabs,
written in Verus and proved against its contracts.

- `src/navigation_policy.rs`: where a URL may be opened (in an app tab, by the system, or
  not at all), over the scheme and host that the `url` crate reads, with the policy's laws.
- `src/tabs.rs`: the tab registry as a state machine over `RegistryView`: opening (checked
  against the tab limit), showing, closing, page loads, titles and history flags, with the
  invariant that every operation keeps and the laws relating the operations.
- `src/service.rs`: the service of a host, its default tab title, and view labels.
- `src/error.rs`: the errors of the commands and their texts.
- `src/ids.rs`: random tab ids from the `uuid` crate.
- `src/text.rs`: character-level string helpers.
- `app/`: the Tauri shell (windows, page views, commands); it calls the library for every
  decision.

# opcua_server

The decision logic of an OPC UA server, written in Verus with its behaviour stated in
`requires`/`ensures` contracts and proved.

## Layout

- `src/` — the verified library
  - `node_id`, `text`, `status`, `permissions`: node identifiers, text helpers, status
    codes, permission and access-restriction bits.
  - `rbac/`: role-based access control — the authorization decisions, namespace
    defaults, the well-known role presets, identity mapping rules, the role resolver,
    the role-management methods of the RoleSet (Part 18) and which method id runs which.
  - `address_space/`: the in-memory address space (namespaces, nodes, references), the
    type tree and reference lookup.
  - `node_management/`: AddNodes, DeleteNodes, AddReferences, DeleteReferences with their
    type rules and the laws of what each request keeps, Browse and TranslateBrowsePaths,
    writes, HistoryUpdate routing and outcomes, the quick node manager's address space,
    typed-method arguments, the served capability limits, status variables and
    NamespaceArray, audit user
    ids and the fields of model-change events.
  - `discovery/`: locale matching, the registered-server registry, FindServersOnNetwork,
    mDNS advertisement texts and endpoint selection and host checks.
  - `programs`: the nodes of a Program (Part 10) with their initial values.
  - `program_engine`: the Program state machine with its runner ticks, and the writes
    that each step makes to the Program's variables.
  - `security_checks`: the bounded audit trail of security checks.
- `tests/` — tests of the library on concrete values.
- `app/` — the glue to the OPC UA stack: wire-type conversions, the serde form of
  identity mapping rules, service entry points, the role-method calls, the
  model-change event and the Program runner thread.

Calls into `async-opcua-types`, `async-opcua-core` and `async-opcua-crypto` go through a
few trusted wrappers, each documented where it is declared.

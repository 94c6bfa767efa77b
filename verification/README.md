# apache_beam worker operators, verified

The operator layer of a data-processing worker, written in Verus.

- `urns`: the transform identifiers the worker executes.
- `proto`: the parts of a bundle description that operators read.
- `elements`: element payloads, windows and windowed elements.
- `text`, `payload`: string comparison, debug rendering, UTF-8 and JSON payload decoding.
- `registry`: the user functions (per-element functions, key extractors) that transforms name.
- `semantics`: what each operator step does, stated over views.
- `operators`: the operators, the operator interface, and building operators from a bundle description.
- `graph`: a bundle's operators and the routing of elements from producers to consumers.
- `transforms`: the `Flatten` transform.
- `laws`: properties that span several steps (grouping within a bundle, forwarding, the log only grows).

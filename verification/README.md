# scalar_series

The verified core of a scalar time-series scatter plot.

- `src/components.rs`: the components (scalar, text, color, stroke width,
  marker shape) and their full names. Floating-point values are carried as
  their IEEE-754 bit patterns.
- `src/archetypes.rs`: the `Scalar` archetype, its metadata, how it is logged
  as component batches and read back from them.
- `src/point_visualizer.rs`: how logged scalar rows become scatter-plot points,
  with per-instance values and series overrides; the visualizer's query and
  initial override values.
- `src/name_set.rs`: sets of component names held as sorted lists without
  repeats, and the order of strings.
- `src/instance.rs`: the decisions of the entity/instance inspector.
- `app/lib.rs`: float conversions and the egui drawing of the inspector.

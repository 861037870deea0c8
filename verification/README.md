# agent-rubato, verified

Adaptive tempo control for multi-agent systems: tempo markings with a human
feel, rubato profiles, tempo curves (accelerando, ritardando), leaders and
followers that synchronise, and session-level tempo maps.

## Layout

- `src/` is the library, verified with Verus. Every type is generic in the
  type of tempos, and the library proves what rests on integers, booleans
  and collections:
  - the shape of a tempo curve from the comparison of its end tempos, and a
    curve length of at least one beat;
  - the sliding window of a follower, which keeps exactly the most recent
    observations, at most its size, and forgets them on reset;
  - the table of followers of a leader, a map from identifiers to offsets
    in which registering replaces and removing reports whether anything was
    there;
  - the markings of a tempo map, kept sorted by key with equal keys in the
    order they were added, and the lookup of the marking in effect at a
    point (the last one at or before it, else the default tempo).
- `app/` fixes the tempo type to `f64` and adds the floating-point
  arithmetic on top of the library: clamping, interpolation along curves,
  beat durations, tempo estimation from beat times, and the order-preserving
  map from beats to the integer keys of the tempo map.
- `tests/` exercises the library on concrete values.

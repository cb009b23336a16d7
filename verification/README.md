# dcl2d

The core of a client and tool set for 2D Decentraland scenes, written in
Verus: the functions under `src/` carry contracts that Verus proves
(`psd_read`, which does nothing, has none), except the few marked
`#[verifier::external_body]`, which call `rand` and std's
`str::to_lowercase` and whose contracts are trusted, not proved.

- `src/` — the verified library: parcel geometry, road and default scene
  composition, the index of downloaded scene files, the decisions of scene
  streaming, player level changes and collisions, sprite animation, the
  login and avatar capture steps, sprite sheet capture and wearable
  composition, and the text formats the client reads and prints.
- `tests/` — tests of the library on concrete values.
- `app/` — the command line program: reading and writing files, the scene
  feed over the network, and serialization of the library's types.

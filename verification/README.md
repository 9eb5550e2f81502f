# bevy_gltf_draco

Decoding of glTF primitives compressed with `KHR_draco_mesh_compression`,
as an extension of Bevy's glTF loader.

- `src/` is the library, verified with Verus: how attribute names are read
  (`semantic`), what a Draco decoder reports (`decoded`), the glTF component
  types chosen for decoded data (`data_type`), the extension object and the
  document that describes a decoded buffer (`extension`, `document`), the
  loader extension's decisions (`handler`), and properties that relate these
  functions (`laws`).
- `app/` is the Bevy plugin around it: it reads the extension's JSON, runs the
  Draco decoder, turns the library's document description into a glTF
  document, and assembles the Bevy mesh.
- `tests/` exercises the library on concrete values.

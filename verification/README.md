# goDrinking

The core of a screen-sharing room application: one host captures a screen, encodes it once
and sends it to every viewer over its own WebRTC connection. A rendezvous server introduces
the members of a room to each other; it never sees the media.

Every rule of the application is a verified Verus function in `src/`; the program in `app/`
performs the input and output around them.

- **Media**: `nv12`, `annexb`, `access_unit`, `queue`, `fanout`, `rtp`, `pipeline`,
  `mf_encoder`, `process_tap`, `sample_pump` turn captured frames and sound into what a viewer
  receives.
- **Connections**: `sdp`, `codecs`, `peer_signal`, `peer_transport` negotiate and run a
  connection to one viewer.
- **Rooms**: `json`, `inbox`, `rendezvous`, `room`, `room_mode` are the protocols with the
  rendezvous server and in the local network.
- **Engine**: `control_plane`, `session`, `engine`, `start`, `share_work`, `in_place`,
  `cleanup`, `transactions`, `mint`, `viewers`, `snapshot`, `commands` own the state of a
  session. Native work is handed out and comes back as a completion that is accepted only
  where its epochs are still current.
- **Around it**: `benchmark`, `capabilities`, `firewall`, `logger`, and the helpers `bytes`,
  `text`, `registry`, `types`, `engine_error`.

A public proof function whose name begins with `law_` states a property of the library as a
whole; its doc comment says it in words.

Calls into the standard library and into outside crates that Verus cannot read stand behind
a few declared items in `text`, `firewall`, `json` and `room`. Each says in its doc comment
what is taken for granted.

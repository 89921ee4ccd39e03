# bevy-nui-plugins

Verified host-side logic that connects a Bevy application with the Neon3
declarative UI services, and the Bevy plugin around it.

The application owns its gameplay state. Neon3 owns layout, text, hit testing,
presentation and the final UI pixels. This crate decides what crosses the
boundary between them: which requests the host sends, what it keeps until they
are answered, and how it reads the replies.

## Layout

- `src/` holds the decisions. They are written in Verus, with contracts that
  Verus proves. Nothing in it owns a window, a socket or a GPU object.
- `tests/` runs the library on concrete values.
- `app/` is the Bevy plugin: threads, sockets, ECS systems, GPU objects and the
  arithmetic on floating point numbers. It asks the library what to do.

| Modules | Subject |
| --- | --- |
| `flow`, `input_map`, `ui` | typed flow variables and the interfaces that carry them |
| `inputs`, `intents`, `events` | what flows and hosts tell each other |
| `frames`, `world`, `order` | camera frames and anchor batches as latest values |
| `image`, `upload` | images for the renderer's atlas, and flow sources |
| `pointer` | pointer events of the host window |
| `surface`, `gpu_readback`, `dx12_consumer` | shared surfaces and their buffers |
| `request`, `responses`, `transport`, `startup`, `session` | the protocol with the services |
| `json`, `revision` | bindings of `serde_json` and `neon_ui` with their models |
| `scalar`, `text`, `queue` | numbers by their bits, texts, bounded queues |

Floating point numbers stand in the library by their bits. It compares them as
numbers and hashes them, and never computes with them.

## Laws

Proof functions whose names start with `law_` state what holds across functions:
that a camera frame and its anchor batch leave under one sequence number, that
an accepted reply never takes the input revision back, that collapsing pointer
moves loses no other event, and more of the kind.

# nocturned

The daemon of a Nocturne device: it links a car display to the app on a phone, over iAP2 or a serial
port, and serves the display's own clients over a WebSocket.

`src/` is the daemon's logic, verified with Verus:

- the link to the phone app: `app/chunk` (envelopes), `app/inbound` (reassembly), `app/msgpack`
  (calls, results and events), `app/ota` (updates), `app/value` (documents), `app/hid_mapping`,
  `app/websocket_handler`, and the laws of the link in `app/link_laws`
- the connections: `iap2_wrapper`, `spp`, `bluetooth`, `bluetooth_agent`, `address`
- the clients: `websocket`, `effect`, `image_cache`
- sound: `pcm`, `audio`, `wakeword`, `voice`
- the device: `ab` (boot slots), `brightness`, `config`, `mfi`, `mfi_impl`
- what these share: `json`, `text`, `table`, `buffer`, `error`

Each module models its state mathematically, and its functions say how they change the model. The
public proof functions whose names begin with `law_` state what holds across functions. Calls into
outside crates stand behind small functions, each with a comment that says what is taken for granted
of the call.

`app/` is the program: sockets, files, processes, D-Bus, and what is computed or compared in floating
point. It performs what the library decides.

`tests/` runs the library.

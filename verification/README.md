# sitewhere_controller

A controller that measures SiteWhere's reaction time. It loads the device
inventory from the SiteWhere REST gateway, listens to device events on an
MQTT topic, answers every `Alert` event with the `ping` command of the
device's type, and records one CSV line per event (device token, event
type, event date, received date, arrival time), which it writes to
`./results.csv` and to an S3-compatible bucket.

Layout:

- `src/` is the verified library (Verus):
  - `text.rs`: decimal rendering and parsing, whitespace trimming, joining
    lines;
  - `json.rs`: JSON values as the controller reads and writes them;
  - `strmap.rs`: a text-keyed map with distinct keys;
  - `inventory.rs`: indexing the gateway's listings;
  - `client.rs`: the REST client's state, session headers, URLs, event
    handling and command payloads;
  - `pipeline.rs`: the decisions of the MQTT worker, the REST worker's
    delivery loop and the result collector;
  - `settings.rs`: settings from the environment;
  - `clock.rs`: the wall clock in microseconds.
- `app/main.rs` is the program: HTTP, MQTT, the object store, the file
  system, and the conversion between `serde_json` values and the library's
  JSON values.
- `tests/` exercises the library on concrete values.

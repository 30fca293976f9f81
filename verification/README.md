# asterisk_bridge

A bridge between a TETRA base station and an Asterisk server. Radios reach SIP peers through it
and SIP peers reach radios: it registers with the server, places and answers calls, keeps their
dialogs, and decides whose audio goes where.

The library under `src/` is a state machine. Each event (a SIP message, a message of the station,
a tick) takes the bridge from one state to the next and leaves actions to be done in an `Outbox`:
datagrams to send, messages for the station's queue, errors to report, RTP ports to reset or
close. Time is handed in as nanoseconds since some start; what is random is drawn inside, and each
function that draws has a counterpart that takes the drawn value.

- `model` says what every event does, over mathematical values.
- `entity`, `calls`, `setup`, `events` and `station` implement it.
- `request`, `digest`, `fields`, `sip`, `media` and `text` write and read SIP and SDP.
- `dialog`, `tables`, `signal`, `config` and `net` hold the data.
- `ident` draws identifiers and computes digests.
- `wire` and `laws` state what holds of the whole: that what is written is read back, that a
  CANCEL belongs to its INVITE, that cancelled calls end, that no stranger is heard.

`app/` holds the sockets and clocks around the library.

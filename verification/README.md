# ipc_web_monitor

A hub that receives sensor readings on a Unix socket and relays them, with the
messages of its WebSocket clients, to every connected client.

- `src/` is the verified library: the message formats (`protocol`), the hub's
  shared state and its reaction to each event (`hub`), the text and decimal
  helpers they rest on (`text`, `decimal`), the clock reads (`clock`), the
  contracts given to unspecified std functions (`std_trusted`), and the
  properties that relate the operations (`laws`).
- `app/` is the server around it: the socket, the WebSocket routes, the
  broadcast channel and the sensor simulator.

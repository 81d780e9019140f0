# webpong

A networked pong game. The library (`src/`) holds the game's logic, verified
with Verus; `app/` is the program around it (websocket networking with
tokio-tungstenite, JSON with serde, the window with quicksilver, and the
ball-paddle contact test with ncollide2d).

- `event_stream`: the FIFO queue of events between a connection and the game.
- `network`: wire messages, connection events, the listener's acceptor
  (fresh ids for new connections) and what a connection's reader does with
  each frame.
- `server::pong_server`: the match: players, observers waiting for a place,
  paddle commands, and when the match state is owed to whom.
- `server::server`: the match server: the lobby of newly connected players
  (named at random) and the match.
- `server_game_loop`: the relay server, which tags every text with its
  sender's index and sends it to everybody.
- `simple_pong`, `client_game_loop`: the client's simulation and its key and
  event handling.

Positions and velocities are whole pixels (`i64`): every position the game
reaches starts and moves by whole numbers. The contact test between the ball
and a paddle is done by ncollide2d on floating point in `app/`; the library
hands it the positions and takes back the outcome.

The relay server removes, after each round, exactly the players whose
connection closed during it ("remove disconnected players"). A player whose
connection fails queues `Closed` twice; it is still removed once, and the
players after it stay.

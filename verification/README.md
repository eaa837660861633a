# multiplayer_fps

The logic of a small networked maze shooter, verified with Verus.

- `src/` is the verified library:
  - `server`: the lobby (players join by sending their name; the countdown
    starts when the second player joins and the game starts once more than
    ten seconds of it have passed) and the relay of each
    client's messages to the other clients;
  - `game_state`: a shared list of players with add, remove and move;
  - `client`: how a client finds its own player, counts lives, takes hits,
    drops dead players, places the other players and builds its messages;
  - `labyrinth`: start and wall cells of a maze and where players spawn;
  - `connection`, `local_state`: the connection screen's keys and buttons,
    and the client's screen states;
  - `types`, `text`: shared value types and UTF-8 decoding.
- `app/` is the server program (UDP sockets, timers, JSON, command line) and
  the client's network handshake, built on the library.
- `tests/` runs the library on concrete values.

Coordinates are carried as the bit patterns of `f32` values: the library
stores and forwards them without computing on them.

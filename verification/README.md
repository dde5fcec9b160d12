# card_duel

The rules and table state of a two-player card duel played over WebSocket.

- `src/` is the verified library: cards and their duels (`cards`), the
  table and how requests are carried out (`gamestate`), and the turn log
  and the scoring of rounds (`turns`). Random cards come from `rand`
  through one trusted function in `chance`.
- `app/` is the server: it accepts connections, parses JSON requests,
  calls the library and delivers the messages the library returns.
- `tests/` exercises the library on concrete tables.

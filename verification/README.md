# server

The rules of a Clash of Cultures game server, written in Verus: the functions of `src/`
are proved by Verus against their contracts.

- `src/` — the verified library: positions and resources, units and cities, the combat
  rules (dice, hits, rounds, results, conquest and what it does to cities and wonders),
  what each terrain gives, collecting resources and the collect options the computer player considers, building,
  trade routes, barbarian movement and spawning (with the steps of the movement event and
  the Mercenaries card), action and hand cards (the spy's card swap, Cultural Takeover),
  the advances with their groups and governments, gaining and losing advances, the content
  lookups (`cache`), and the decisions of the computer player: its missions, the groups of
  actions it weighs and its answers to requests.
- `tests/` — tests of the library on concrete values.
- `app/` — the serialized form of buildings (JSON) and the glue that runs the collect rules
  together with the abilities of the players, which are not part of the library.

# Tiny Necromancer

A small cemetery-management game: dig graves, haul bones and wood, raise
undead workers, build a work shed, a grave lantern and an ossuary kiln,
study a short research chain, trade at the night market and keep the
villagers' suspicion below the investigation threshold.

## Layout

- `src/` is the rules of the game as a verified library. Every function
  carries a contract, proved with Verus:
  - `tile`, `world`, `navigation`, `movement`: the tile grid, zones, routing
    around structures, the forest and the road, and the necromancer's walk.
  - `economy`, `districts`, `coverage`: materials and loose piles, district
    rules and staffing, and the largest pairing of marked tiles with workers
    that can reach them.
  - `targets`, `logistics`, `digging`, `jobsite`, `automation`, `jobs`:
    where each worker goes, hauling, digging, wood and construction sites,
    and priority-driven job choice.
  - `progression`, `catalog`, `research`, `upgrades`, `production`: building,
    kiln cycles, study, plots and victory.
  - `trade`, `market`, `pressure`, `alerts`, `raising`, `names`, `overlays`:
    the night market, escalation events, alerts, raising undead, the name
    pool and the domain overlays.
  - `session`, `data`, `validation`, `kinds`, `policies`, `text_util`: the
    session and its repair from saves, authored data and its checks.
- `app/` is the playable shell: it reads the JSON data files, keeps the
  continuous values (timers, suspicion, mana regeneration, walk
  interpolation), writes and migrates saves, and draws the game with
  Macroquad. It hands every whole-step decision to the library.
- `tests/` exercises the library on a small hand-built cemetery.

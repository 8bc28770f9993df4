# waybar_cookie_clicker

A Cookie Clicker game for the waybar status bar: click the cookie, buy
buildings and upgrades from an expandable panel, and earn passive income
between runs (at most 8 hours of it).

## Layout

- `src/` — the game, verified with Verus.
  - `game/amount.rs` — the unit of cookie amounts and saturating arithmetic.
  - `game/defs.rs` — the building and upgrade tables, the 1.15× cost
    scaling, and laws about the tables (unique ids, the click chain, three or
    four doublers per building unlocking at 1 / 5 / 25 / 50 owned).
  - `game/state.rs` — the game state, the set of bought upgrades.
  - `game/engine.rs` — clicks, passive income, cookies per click and per
    second, the slot panel and purchases, with the laws of the panel.
  - `game/display.rs` — the waybar JSON of the main button and of each slot.
  - `format.rs`, `text.rs` — short number forms ("1.5k"), decimal digits and
    JSON string escaping.
  - `cli.rs` — the commands and what each one does to a state.
- `app/` — the program: command-line parsing, the save file, the clock edge.
- `tests/` — tests of the library.

## Amounts

Every cookie amount (cookies in hand, all-time cookies, costs, gains,
production per second) is held as a whole number of micro-cookies
(`COOKIE` = 1 000 000), so that the game's arithmetic is exact: production
rates such as 0.1 cookie per second, the +10% multipliers and the gain over
elapsed milliseconds are all whole numbers in that unit. A building's cost is
its base cost times 1.15 to the power of the units owned, computed exactly and
rounded up once to a whole micro-cookie. Amounts beyond `u128::MAX` micro-cookies are held at that value. The save
file keeps amounts as floating-point cookies; `app/` converts.

Short number forms are those of the game's floating-point amounts: the amount
is taken as the double nearest to it, its quotient by a thousand, a million,
… as the double nearest to that, and each is written to the nearest decimal,
a tie going to the even digit. `format.rs` carries out that arithmetic on
whole numbers.

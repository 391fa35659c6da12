# Vendor timers

Vendors of a game have an amount of money that is refilled at a reset. This program keeps a list of
vendors, counts down to their resets, and follows the log that the game writes about the player, from
which it learns whose shop is open, how much money is left there, and when it is refilled.

`src/` is the library: all rules of the program, proved with Verus. `app/` is the window, the save
file, and the thread that reads the log. `tests/` runs the library on given values.

| Module | What it holds |
| --- | --- |
| `text`, `number` | trimming, searching, splitting and comparing texts; reading and writing integers |
| `clock` | instants, the time left until a reset, and how it is shown |
| `order` | sorting that keeps the order of equal items |
| `favor` | the levels of a relationship and the words for them |
| `tags` | the lists of what a vendor buys and likes |
| `vendor` | a vendor and the timer of its reset |
| `state` | the state of the program, and how it is loaded |
| `log_line`, `log_laws` | the events that lines of the log tell |
| `log_state` | what these events change |
| `tail` | following the log as it grows |
| `actions` | what the player and the clock change |
| `overview` | which vendors the overview shows, and in which order |
| `paths` | where files are |

Calls into the `time` crate and a few of the standard library stand behind small wrappers whose
contracts are taken on trust; each names the function it wraps.

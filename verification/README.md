# nudge

A red-screen kitchen timer for people who lose hours to their PC. You set a
duration, you keep working, and when the time is up nudge starts gently
shouting at you until it locks the screen.

```sh
nudge <duration> [runway] [flags]
```

## Layout

The library under `src/` is verified with [Verus](https://github.com/verus-lang/verus).
It sleeps, draws and spawns nothing: it takes plain values and gives plain
values back.

| Module     | What it holds                                                        |
| ---------- | -------------------------------------------------------------------- |
| `time`     | lengths of time, with the range of `std::time::Duration`             |
| `duration` | the parser for `1h30m45s`, and a proof that it follows its grammar   |
| `plan`     | the wait schedule, default runway, `2m 30s` formatting               |
| `config`   | checks on the command line values                                    |
| `timer`    | the walk through a plan: sleep, alert, lock; exit codes              |
| `locker`   | which screen lockers to try, in which order                          |
| `alert`    | what an alert shows, when it closes, how its surface is set up       |
| `ui`       | the backend trait and its errors                                     |
| `text`     | decimal numbers, lower case, substring search                        |

The program under `app/` is ordinary Rust around it: the command line, the
clock, signals, other programs, and the overlay drawn with iced. How one wait
decays into the next is floating point and lives there too; the library takes
it as a function and proves what holds of the schedule for any such function.

One thing is taken on trust: that the `Debug` formatting of a character
depends on the character alone, and puts a printable ASCII character that
needs no escape in single quotes (`text::format_debug_char`).

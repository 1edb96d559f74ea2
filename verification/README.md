# athena_led

The LED screen of a JDCloud AX6600 router: 27 columns of five lamps and four
status lamps, on two TM1628A chips. It shows the time, the weather, network
traffic, the load of the processor and more, one module after the other, and
two keys switch between them.

`src/` is a library in Verus. Its functions have contracts that Verus proves,
but for the few that are named below, and it does no input or output of its own:
it is handed what was read, and says what to write, to fetch or to wait for.

| module | subject |
| --- | --- |
| `scheduler`, `modules` | which module is shown when, and what it shows |
| `led_screen`, `char_dict`, `screen_laws` | from a text to the levels on the four lines |
| `button`, `control` | clicks, double clicks and long presses |
| `gpio` | backends, chips and pins |
| `clock`, `timezone` | the time of day, the hours of sleep, the zone |
| `monitor`, `bytes` | the files of `/proc` and `/sys` |
| `net_agent`, `net_laws`, `fetch`, `weather` | data from the net: requests, answers, failures |
| `text`, `number`, `args` | what the others are made of |

What is believed and not proved stands with its contract in the functions that
call into std and other crates: `text` (`String::push`, `str::to_lowercase`),
`led_screen` (`str::from_utf8`), `clock` (chrono) and `fetch` (regex,
serde_json).

`app/` is the program around the library: the command line, the GPIO lines, the
files, the requests and the waiting. Percentages, speeds and temperatures are
floating-point numbers and are computed there. `tests/` runs the library.

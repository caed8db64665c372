# qbot_with_typ

A QQ bot that renders Typst. A message such as `/typd $E = mc^2$` is answered with an image, made
by one of a pool of `typst-stdio-worker` processes.

`src/` is the library, verified with Verus: everything that is decided or computed.

| module | what it holds |
| --- | --- |
| `bot` | the commands, the help texts, and the course of a conversation |
| `tag_shorthand` | the first line `a1, bbb` written out as `#show: tag.with("a1", "bbb")` |
| `worker` | the protocol with one worker: its start, its requests, its answers, its errors |
| `pool` | the slots of the pool, the course of a render, deaths, refills and counts |
| `history` | what holds of a pool over any sequence of renders and refills |
| `qq_media` | uploads and answers with an image |
| `log_prefix` | the columns of the log |
| `launch` | the configuration that follows from the command line |
| `encoding` | base64, through the `base64` crate |
| `text` | trimming, splitting and decimal numbers, on characters |

Each executable function states what it returns or changes. The functions whose names begin with
`law_` state what holds across functions.

`app/` is the program around it: the command line, the processes, the network.
`tests/` runs the library on given values.

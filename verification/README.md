# mpvrc

Control of the mpv media player over its JSON IPC socket, as a verified
library and the program around it.

- `src/` is the library, verified with Verus: mpv's command names, the request
  each operation sends and the message that carries it, how a reply is judged,
  the plans of the command-line operations, the parsing of the interactive
  prompt, and the HTTP front end's authentication, command extraction and
  replies. Text handling (trimming, splitting, decimal numbers, padding) is
  proved against its specification.
- `app/` is the program: the command line, the socket, terminal and TLS I/O,
  the loop that feeds `PlanRun` the outcome of each request, and the
  floating-point seek position.
- `tests/` runs the library on concrete values.

## Usage

Start mpv with an IPC socket, then drive it:

```
$ mpv --idle --input-ipc-server=/tmp/mpvsocket
$ mpvrc play
$ mpvrc add ~/Videos/movie.mkv
$ mpvrc interactive
Entering interactive mode. Type 'help' for commands or 'exit' to quit.
Socket: /tmp/mpvsocket

mpv> list
  0 | Episode 1 | /path/to/episode1.mkv
> 1 | Episode 2 | /path/to/episode2.mkv
  2 | Episode 3 | /path/to/episode3.mkv
mpv> exit
```

The HTTP front end needs `TLS_PFX_PATH`, `TLS_PASSWORD` and `AUTH_TOKEN`:

```
$ mpvrc server --bind 127.0.0.1:8080 --socket /tmp/mpvsocket
$ curl -k -H "Authorization: Bearer $AUTH_TOKEN" -d "play" https://127.0.0.1:8080/
```

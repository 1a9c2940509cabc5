# CursorDrop

Drop files on a small always-on-top widget, or paste them, or a picture, from the
clipboard. CursorDrop copies them to a remote host with `scp` and puts their
remote absolute paths on the clipboard, ready to be pasted into a remote session.

The logic is a library written and proved in Verus. A thin Windows program runs
it.

## Layout

| where | what |
|-------|------|
| `src/config.rs`, `src/config_laws.rs` | the `CursorDrop.ini` format, and what it promises |
| `src/remote.rs`, `src/ssh.rs` | the remote directory, the remote home, and the `ssh` / `scp` arguments |
| `src/upload.rs`, `src/upload_laws.rs` | an upload, from the files to the report, and what it promises |
| `src/flush.rs`, `src/place.rs` | clearing the remote directory, and the parts of a path |
| `src/busy.rs` | one transfer at a time |
| `src/clipboard.rs` | putting a text on the clipboard, saving its image, pasting |
| `src/ui.rs`, `src/window.rs`, `src/menu.rs` | what the widget shows, where it stands, and what it answers |
| `src/util.rs`, `src/sys.rs`, `src/text.rs` | quoting, file names, UTF-16, time stamps, text |
| `app/` | the program: windows, the clipboard, processes and files |
| `tests/` | the library on concrete values |

An upload, a flush, and the two uses of the clipboard are machines: each step
tells what to do next, and takes what came of it. The program carries the steps
out.

## Settings

`CursorDrop.ini` stands next to the program and is written on the first run.

```ini
[Server:prod]
Alias=myserver
RemoteDir=~/.cursor-drop-files

[Server:dev]
Alias=devbox
RemoteDir=~/uploads
```

`Alias` is a host of `~/.ssh/config`. `RemoteDir` is where files go: `~` is the
remote home, and a path that starts with `/` is used as it is, but for slashes at
its end. The first server
is the active one; the context menu switches for the session.

## What is taken on trust

The proofs rest on what the standard library says of `char::is_whitespace`,
`char::is_alphanumeric`, `char::from_u32`, `String::push` and
`String::from_utf8_lossy`. Each is stated where it is declared, in `src/text.rs`,
`src/sys.rs` and `src/remote.rs`.

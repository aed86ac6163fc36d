# agent-browser-core

The control plane of a browser automation daemon, written and verified in
[Verus](https://github.com/verus-lang/verus).

## What it does

- **Debugger of compiled JavaScript.** Takes the events of a browser, keeps its
  sessions, scripts, pauses and probes, answers commands, and asks for a
  confirmation where the policy wants one. Events are kept in a bounded ring
  that tells what it lost.
- **Tools of pages.** Lists the tools that a page offers and calls them, with
  stable error codes.
- **Saved states.** Collects cookies and storage, writes them to a file,
  encrypted where there is a key, and restores them. An automatic save replaces
  the old file only by a valid one.

## How it is laid out

| Where | What |
| --- | --- |
| `text`, `json`, `collections`, `interop` | texts, JSON values, tables |
| `records`, `controller`, `events`, `lifecycle` | the state of the debugger and what events make of it |
| `queries`, `reports`, `policy` | answers and decisions |
| `operation`, `activation`, `inspect`, `search`, `probe_*`, `reconcile`, `dispatch` | commands that talk to the browser |
| `source`, `breakpoint`, `logpoint` | positions in sources, and what is installed there |
| `webmcp`, `tool_call` | tools of pages |
| `storage`, `storage_visit`, `save`, `state_read`, `state_files`, `autosave`, `crypto`, `paths` | saved states |
| `laws` | what holds of all of it together |

A command that waits for the browser is a machine. It names the request to send,
and `advance` takes the reply. The models are pure: `…View` types stand for the
executable ones, and each function says in its contract what it makes of them.

Calls into other crates stand behind small functions marked
`#[verifier::external_body]`, each with a comment on what is believed of the
call. They are in `interop` (`serde_json`), `crypto` (`aes-gcm`, `sha2`,
`getrandom`), `storage` (`url`, `base64`), `lifecycle` (`uuid`) and `text` (the
standard library).

How a path is written differs between platforms, so `paths`, `save`,
`state_files` and `autosave` give the names of directories and files, and `app/`
joins them with the standard library.

`app/` is the daemon's side: connections, files, the environment, and the tasks
that run the machines. `tests/` holds the tests.

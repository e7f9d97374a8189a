# yutai_watch

Watches a shareholder-benefit news page: a Python scraper lists the current
entries, new ones are found by their SHA-256 fingerprints against those already
notified, sent to Discord webhooks as embeds, and recorded in a state file and
two JSON-lines history files. The run's log is sent to Discord as well.

The library (`src/`) is verified with Verus:

- `text` — lines of a text as `str::lines` gives them, UTF-8 byte lengths.
- `logger` — the run's log and its splitting into chunks for Discord.
- `discord` — notification embeds and webhook messages.
- `fingerprint` — item fingerprints and the check for new items.
- `storage` — what pruning a history file keeps.
- `flow`, `monitor_flow`, `initialize_flow`, `prune_flow` — the runs as step
  functions from a stage and the outcome of the last action to the next stage
  and action; the state update after a notification.
- `models`, `errors`, `error`, `config`, `constants` — the data.

`app/` is the program around it: reading the settings, running the scraper,
files, HTTP, the process-wide log, and the loops that perform the actions the
step functions ask for.

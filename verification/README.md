# monitor_hub

The logic of a self-hosted server monitor's hub, written and verified in Verus:
the conversion of what a komari-agent reports, and the notifications that the
hub sends about nodes and sign-ins.

## Layout

- `src/komari_compat.rs`: tokens, and the converters for `agent.report` and
  `agent.basicInfo`.
- `src/delivery.rs`: one notification on its way through the channels.
- `src/pushplus.rs`, `src/smtp.rs`, `src/telegram.rs`, `src/webhook.rs`: what each
  channel sends, and what its answer is worth. `src/headers.rs` reads the
  webhook's configured headers, `src/status.rs` HTTP status codes.
- `src/notice.rs`, `src/markup.rs`: what the notifications say, and what is left
  of them as plain text.
- `src/watcher.rs`: which nodes are online, and which just changed.
- `src/validation.rs`: which settings can be stored.
- `src/json.rs`, `src/settings.rs`, `src/text.rs`: the values that the rest works
  on.
- `app/`: the requests, the mail transport, the clock and the watcher's task.

## What is trusted

Calls into other crates stand behind small functions whose contracts say what is
taken for granted of them; each has a doc comment that names the call:

- `serde_json`: reading JSON text, the parts of a parsed value, and making one.
- `reqwest`: header names and values, the header map, URLs, and the text of a
  status.
- `lettre`: mailboxes.
- `chrono`: writing a moment.
- `rand`: drawing a number.
- The standard library: `String::push`, and `Debug` of a `str`.

# quota_control

Agent quota control keeps watch over the usage quotas of Kimi Code and Codex
accounts: it records usage samples, forecasts whether a quota lasts until its
reset, shows the state in the macOS status bar, keeps API keys in the keychain
or in an encrypted vault, and starts coding tools and ChatGPT behind a local
proxy.

`src/` is the verified library (Verus):

- `accounts`: the account list, with unique ids and names unique per provider.
- `config`: the configuration and its migration from older versions.
- `credentials`, `vault`: where secrets live; the AES-GCM vault format.
- `history`: the bounded usage history (retention, per-tier cap, replacement
  of duplicate observations).
- `estimator`: reset timelines, trend sample selection, saturation events.
- `proxy`: proxy selection and its test results.
- `launcher`, `chatgpt`: the commands that start tools and ChatGPT.
- `tray`, `menu`, `selection`, `refresh`: status-bar texts, menus, the tool
  selection and the decisions of a usage refresh.
- `text`, `types`: string helpers and the shared data types.

`app/` is the program around it: files, the keychain, processes, sockets and
the floating-point projections.

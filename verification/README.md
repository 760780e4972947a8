# Token Monitor

A terminal monitor for the quotas, balances and local usage of coding assistants.

The library under `src/` holds the monitor's rules as verified code: what each
provider's answer means, how rows are ranked and merged, how usage is priced and
summed, what the screens show, how keys change them, and when something is
collected or drawn. Every public function states what it returns, and functions
named `law_...` state what holds across functions.

- `quantity`, `arithmetic`, `formula`, `figures`, `numerals`: binary floating-point
  numbers by their bits, arithmetic on them, and how they are written.
- `text`, `json`, `moment`, `sort`, `counts`: the ground that the rest stands on.
- `limits`, `registry`, `collectors`: quota windows, rows, and one module per provider.
- `usage`, `sessions`, `local`, `pricing`, `report`, `proto`, `legacy`, `ledger`, `detail`:
  local usage and what it is worth.
- `credentials`, `secrets`, `setup`, `storage`: where secrets and data lie.
- `screen`, `labels`, `columns`, `matrix`, `frame`, `limits_page`, `ledger_page`,
  `detail_page`, `summary`: what is shown.
- `monitor`, `startup`, `run`: the state behind the screen and its changes.

`app/` is the program around it: files, processes, the network, the database and
the terminal. The provider `anthropic` is asked on its web app where
`CLAUDE_WEB_ORIGIN` states the app's address, and finds stored tokens in the
directory that `CLAUDE_CONFIG_DIR` names.

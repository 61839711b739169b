# klawply

A terminal agent that applies to jobs for you. It connects your ChatGPT
subscription, reads your resume, opens a job posting in Chrome, asks the model
which form controls to fill, and fills them. It leaves the final submit alone: you
review the page and submit yourself. Before each click a script asks the page
whether the target is the final submit; `browser` hands out no click on the answer
that it is, and the script that clicks tests the target once more. The final
submit is told by its label and type (see `browser::SUBMITS_JS`): a page that hides
it behind another label can defeat the test, so the model is told not to click it
either.

The project has two parts.

- `src/` is the library: every decision klawply takes, in Verus, with contracts
  that say exactly what comes of it. It does no input or output of its own.
- `app/` is the program around it: the terminal, the network, the disk and the
  browser. It does what the library asks for and hands back what came of it.

## Modules of the library

| Module | What it decides |
|--------|-----------------|
| `agent` | The background worker as a state machine: given what came of the last piece of outside work, which events to report and what to do next. |
| `app`, `event`, `terminal` | The state of the UI: what events of the agent, keys, pastes and the mouse do to it. |
| `auth` | The OAuth login (PKCE, loopback redirect), tokens, claims, expiry and refresh. |
| `llm` | Prompts, the request to the backend, the event stream, and what a reply holds. |
| `browser` | How to get at a debug Chrome, the scripts that fill a form, and what their results mean. |
| `fields`, `field_map`, `json` | The application fields, their JSON form, and merging. |
| `ui` | What the three screens show: wrapping, highlighting, scrolling, the loading animation and the seven-segment title. |
| `selection`, `clipboard` | Selecting text with the mouse and copying it. |
| `config`, `log`, `theme` | Settings, log lines and colors. |
| `text`, `words`, `utf8`, `decimal`, `b64`, `codec` | Text and encodings that the others are built on. |

Calls into other crates (`serde_json`, `base64`, `sha2`, `rand`, `urlencoding`,
`ratatui`) stand behind small functions whose contracts are taken on trust. The
comment above each says which function it calls and what is claimed of it.

General properties are stated as public proof functions at the end of each
module. Some examples:

- `agent::reports_follow_the_work`: the UI is never left locked when the agent
  waits for a command.
- `agent::every_action_is_counted`: a filled form accounts for every planned
  action.
- `auth::callback_hands_over_the_code`: a redirect with the state of this login
  ends it with the code that it carries, and `auth::code_needs_the_state`:
  nothing else does.
- `browser::no_click_is_unasked`: a script that clicks comes only right behind
  one that asked whether the target is the final submit, and was not told so.
- `fields::merging_twice_changes_nothing`, and `fields::save_fields`: what is
  saved is loaded again.
- `llm::shown_text_is_the_reply`: what is streamed to the screen is the reply.
- `ui::transcript::what_is_copied_is_what_is_seen`: a selection copies what it
  highlights.

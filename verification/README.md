# orcestr_real_translate

The verified core of Orcestr Real Translate, a desktop application that signs a user in to
Orcestr and streams microphone and system audio to OpenAI Realtime for live transcription and
translation.

`src/` is written in Verus, and Verus verifies all of it against the contracts written
there:

- `config`, `weburl`: the allowed Orcestr endpoints and the URLs built from them;
- `oauth`, `session`, `flows`, `auth`, `api_error`, `json`, `secret_store`: browser sign-in
  with PKCE, the callback it accepts, the sign-in state machine, token and profile checks,
  the errors that may reach the renderer, and the checks on stored credentials;
- `audio`, `realtime`, `worker`: audio device inventories, the feedback checks on audio
  routes, the Realtime session configuration and events, and the steps that set up
  and run a session;
- `diagnostics`, `update`, `desktop`, `text`: log lines, update progress, deep links and
  string helpers.

Calls into `url`, `base64`, `sha2` and `getrandom` stand behind small trusted wrappers. Their
contracts are not proved: they name what each call returns and state the few facts that the
crates' sources show. In particular, every `WebUrl` is taken to be what `Url::parse` gives for
its own serialization, so `Url::set_path` is only used on URLs with a host.

`app/` is the Tauri application around the library: HTTP, WebSockets, the OS credential store,
audio devices and signal processing, and the commands of the renderer. `tests/` runs the
library on concrete values.

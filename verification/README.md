# ax_gpt

A terminal client for chat completions. The words of the command line are
sent as a question; each terminal keeps its own short conversation, which is
reused for five minutes.

- `src/` is the verified library:
  - `config`: the settings, their defaults, and what reading the
    configuration file leads to (use it, report it, or write a default);
  - `session_storage`: sessions, trimming to the newest messages, the
    five-minute time to live, and where a terminal's session is stored;
  - `open_ai_client`: the client's sign-in header and what each event of a
    streamed reply leads to;
  - `open_api_models`: the request and reply types and the request that
    continues a conversation;
  - `text`: decimal text, path joining and joining texts with a separator.
- `app/` is the program around it: command line, files, HTTP, the streamed
  reply and its pretty printing, and the JSON copies of the library's types.
- `tests/` runs the library on concrete values.

# system_monitor

A system monitor that watches CPU, memory and disk usage and sends alerts to
the console, to a webhook or by email, with a small webhook server that keeps
the latest metrics it is sent.

- `src/` is the verified library (Verus): the configuration model and the
  reading of notification types (`config`), the `key=value` override rules
  (`overrides`), the choice of alert delivery (`notify`), the bounded history
  of received metrics (`history`) and the text handling they rest on (`text`).
- `app/` is the program around it: command line, TOML loading, reading
  usage figures from the system, sending alerts, and the HTTP server.
- `tests/` exercises the library.

# todo_app

A small task service: a browser client (yew), a server for the tasks and a
reverse proxy (pingora) in front of both.

- `src/` is the verified library: the client's task, user and settings
  models, the message banner, the sorting and filtering of the task list,
  the planning of requests and the reading of their errors, the server's
  task rows and updates, and the proxy's routing and configuration. Each
  public function states what it returns in its contract; the laws that span
  several functions are public proof functions.
- `tests/` runs the library on concrete values.
- `app/` holds what does input and output: the yew components and pages,
  the HTTP calls, the pingora services and the health check. It converts
  between the library's types and the copies that carry serde and yewdux
  derives.

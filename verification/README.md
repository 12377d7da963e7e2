# ses_mailer

A bulk e-mail server on AWS SES: it takes send requests over HTTP, sends them at a
configured rate (at once or at a scheduled time), and records delivery and open events
that SES reports through SNS.

- `src/` is the verified library (Verus): settings, the request and result models,
  per-status counts, schedule-time handling, the decisions of each HTTP endpoint, the
  scheduler's batch plan and the sender's bookkeeping. Each public function states its
  result in its contract, except where the clock or the machine's time zone decides it:
  there the contract states what holds of every outcome (the stored schedule time is in
  the stored form and less than a day from the given local time). The laws that relate
  functions are public proof functions.
- `app/` is the server around it: the axum routes and middleware, SQLite access through
  sqlx, the AWS SES client, the tokio tasks and channels, and reading the environment.
- `tests/` runs the library on concrete values.

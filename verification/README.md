# backend

The backend of the gorb chat service: guilds, channels, roles, members,
friendships, invites, accounts and the mail they send.

- `src/` is the library, written in Verus and proved: the configuration and its
  defaults, the error answers, validation of names and addresses, tokens and
  cache keys, image checks and storage paths, the ordering of channels and roles
  and the row changes that add, move and delete them, permissions, friendship
  rules, member pages, signature headers, password hashing and the mails' texts.
  Calls into outside crates (regex, url, hex, getrandom, bindet, random_string,
  argon2) stand behind small trusted wrappers whose contracts say what the
  library relies on.
- `app/` is the server around it: configuration file, database, cache, file
  storage, SMTP and HTTP. It carries out what the library decides.
- `tests/` runs the library on concrete values.

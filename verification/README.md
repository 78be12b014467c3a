# reading_bot

A chat bot that times reading sessions. A user checks in with a book and a
chapter, checks out when done, and can ask for the time read so far, for a board
of all users, and to be reminded to read at a fixed interval.

- `src/` is the verified library (Verus):
  - `models.rs`: the rows of the five tables (books, chapters, records, reminders,
    users) and their mathematical values;
  - `db/`: the store of the tables and its operations, each with a contract over
    the store's value (`DbView`): look-up-or-create of books, chapters and users,
    insertion, closing and deletion of reading sessions, the time read, reminders;
    `db/keys.rs` states that no two rows share a key and proves every operation
    keeps it so;
  - `text.rs`: decimal numbers, splitting and trimming text;
  - `bot.rs`: the answer to every command and what it does to the store, the
    reminder message, and the reminders started at start-up;
  - `laws.rs`: properties across operations, among them that every command keeps
    the sessions consistent and that a checkout reports and adds the time since
    the checkin.
- A request to be reminded no more answers with the user whose reminders stop;
  the app then stops that user's reminder tasks.
- `app/` is the program around it: Telegram through teloxide, the SQLite tables
  through Diesel (loaded into the store before a command, written back after),
  and the reminder tasks.
- `tests/` runs the library on concrete values.

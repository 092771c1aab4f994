# archive_fts

A full-text index of archived tool output, kept in an SQLite database, whose
decisions are verified with Verus.

`src/` is the verified library. It holds no database connection and no file: it
says what to ask for next and takes the replies.

- `writer` is the queue of commands and what the writer does with the first one.
  `open`, `index` and `enforce` are the jobs that it carries out: opening the
  database, adding and removing an entry, and keeping the database within its
  size limit.
- `action` is what can be asked for and replied, and `statement` the SQL.
- `reader` is searching and counting.
- `budget`, `text`, `paths`, `rows` and `clock` are size limits and waits, reading
  a number from a setting, where the files lie, rows that may not be readable, and
  the time of an entry.
- `model` is the tables as mathematics. `laws` and `queue_laws` prove what holds
  of whole commands: that enforcement goes on until the database is within its
  limit or empty, and where statements fail does not give up before many batches
  in a row have come to nothing, that the oldest entries go first and take their
  files with them, that the two tables stay in step, that a removal undoes an
  addition, that commands are served in order and none is lost, and that each comes
  to an end.

`app/` performs what the library asks for, with `rusqlite`, threads and the file
system. `tests/` runs the library, in part against a database on disk.

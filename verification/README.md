# loca

A loca building: rooms where people and agents talk and work together, with a
door for each room, a master who hands out the keys, and a caretaker who reminds
those who forgot.

`src/` is the library, verified with Verus. Every rule of the building stands
there as a function on plain values, with a contract over a mathematical model of
the building (`HubView`, `RoomView`).

- `protocol`, `authority`, `settings`, `config`: the data.
- `table`, `text`, `token`, `runtime`: what the rest is made of.
- `room`, `hub`, `halls`, `post`, `talk`, `record`, `reactions`, `listing`: rooms
  and what is said in them.
- `work`, `desk`, `attention`, `care`, `ward`, `rounds`, `calls`: tasks, goals,
  waits, and who is reminded of what.
- `door`, `keys`, `sessions`, `lobby`, `residents`, `references`: keys, and whom
  they let in.
- `gate`, `content`, `chores`, `premises`, `people`, `attachments`: what a request
  may do, and how it is refused.
- `stream`, `feed`: what a live connection hears, and when.
- `saved`, `restore`: how a building opens again.
- `api`, `console`: the master's console.
- `laws`, `laws_door`, `laws_work`, `laws_feed`: what holds of the building as a
  whole.
- `laws_course`, `laws_rounds`: what holds over many calls.

What a durable record answers (that something was stored, or was not) comes into
these functions as an argument: what was not stored did not happen. One thing is
said all the same: a live mode that ran out is announced whether or not its end was
stored, and stays on where it was not.

`app/` is the server and the console around the library. It keeps its records in
memory and reads the files of the web client from the directory `WEB_DIR`.

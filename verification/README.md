# songonsole

Music: a library and a player for somebody sitting across the room, driven
with a pad, a keyboard or a pointer.

`src/` is the library, verified with Verus: the queue (repeat, shuffle rounds,
history, removal), the shelves and the orders they are listed in, the model of
where the light goes and what each press does, the Options menu, reading what
FFmpeg says of a file, the command line, the music folder named in
`user-dirs.dirs`, the numbers pointer targets go by, the rows a page draws, and
which reports of the sound worker are still about the song that is open.

`tests/` runs the library on concrete values.

`app/` is the program around it: the window and its drawing, the settings
file, the walk over the music folders and the `ffprobe` runs, the sound worker
and the pad's stick.

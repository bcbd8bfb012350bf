# noel_editor

A small template editor built on egui. The library (`src/`) holds the
interaction state (counters, one-shot triggers, the Tab cycle through search
hits), the element / driver / spawn trees that templates are made of, the
field that stores named chunks and spawns, and the decisions that the widgets
take each frame. All of it is verified with Verus; the calls into egui and
simsearch are collected in `src/outside.rs`.

`app/` is the window: it draws the trees with egui and eframe, reads the
keyboard and mouse, and hands what happened to the library.

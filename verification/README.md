# Gruntia

The rules and the software renderer of a small base-building game with card-driven
expeditions, written in Verus and verified.

- `src/` is the library. `game.rs` holds the campaign state machine (screens, base,
  storage, preparation, expeditions); `expedition.rs`, `map.rs` and `card.rs` the
  expedition rules, the map generator and the cards; `data.rs` the materials, characters
  and buildings; `input.rs` what a frame of mouse and keyboard input does on each
  screen; `render.rs`, `frame.rs`, `font.rs`, `labels.rs`, `widgets.rs`, `icons.rs` and
  `screens.rs` draw frames into a pixel buffer; `random.rs` reaches the `rand` crate;
  `text.rs` writes numbers.
  Every drawing function states the color it leaves at each pixel of the frame, in
  terms of the frame before and the label bitmaps.
- `tests/` exercises the library on concrete campaigns and frames.
- `app/` is the window program: it reads the mouse and keyboard, keeps the save file
  `saves/manual.json`, loads the label bitmaps from `assets/ui/`, and shows the frames.

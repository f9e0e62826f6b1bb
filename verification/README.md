# configurator

The settings menu of a game configurator, as a verified library.

- `src/table.rs` – the configuration tables the menu walks (ordered keys,
  nested tables, typed leaf values) and key lookup.
- `src/menu.rs` – the menu state, the arrow-key transitions over three levels
  of tables, and the laws those transitions keep.
- `src/setting.rs` – one saturating step of the selected setting and which
  shader or effect must be reloaded afterwards.
- `src/reflect.rs`, `src/render.rs` – the shape of a configuration as the
  menu shows it, and the layout of the header and the three columns as a list
  of draw commands.
- `src/text.rs` – ASCII case-insensitive label comparison.
- `app/` – global state, conversion from TOML tables and reflected
  structures, and the Direct3D drawing that carries out the draw commands.

# fire

The verified core of an image viewer: what is decided, kept and computed between an event and a
frame. Windows, files, decoders, GPUs and floating-point drawing stay outside; the library takes
plain values in and hands plain values back. Every function carries a contract, which Verus proves,
except of the calls into std and winit below.

Believed without proof, each documented where it stands:

- `paths`: `file_name_of`, `file_stem_of`, `extension_of`, `parent_of` and `to_lowercase`, which call
  `Path::file_name`, `Path::file_stem`, `Path::extension`, `Path::parent` and `str::to_lowercase`.
- `identifiers`: `identifier`, which prints a `winit::keyboard::KeyCode`.
- `keys`: equality of `KeyCode`, and the declaration of that type.
- `text`: `String::push`.
- `utf16`: `char::from_u32`.

- `src/` is the library.
  - Text and paths: `text`, `natural`, `paths`, `utf16`, `status`.
  - Folders: `folder`, with its natural order and its wrapping cursor.
  - Keys and settings: `keys`, `identifiers`, `key_names`, `chord`, `keybinds`, `config`, `settings`.
  - The picture: `image`, `view`, `scene`, `octagon`, `mips`, `half`, `upload`, `shade`, `icons`.
  - Sprite sheets: `flipbook`, `detect`, `playback`.
  - Numbers by their bits: `single`, `ratio`, `wrap`.
  - The window: `viewer`, `dispatch`, `routing`, `commands`, `chrome`, `chip`, `menubar`, `timers`.
  - The process: `shell`, `pool`, `instance`, `openfiles`, `platform`.
- `tests/` runs the compiled library.
- `app/` is a viewer around it, on winit and softbuffer.

A public proof function whose name begins with `law_` states something that holds of the library as
a whole, over the same specification functions that the contracts use.

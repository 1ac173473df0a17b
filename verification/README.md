# galerie-montsouris

A viewer for personal photos, with galleries, filters, annotations and search by likeness.

`src/` is the library: everything that the program decides. Each function there carries a contract
that Verus proves, but for some twenty small ones, marked `external_body`, and `String::push`: these
pass a call on to another crate or to std, and Verus believes what they state of it. `app/` is the program around it: the window, the files, the threads, and the
arithmetic in floating point. `tests/` runs the library on concrete values.

| Module | What it holds |
| --- | --- |
| `viewer` | the grid of tiles and the single photo, and how the focus moves in them |
| `filters`, `pixels`, `curve` | filter stacks, what filters make of an image, tone curves |
| `gallery`, `collection` | gallery files, annotations, photos from directories and gallery files |
| `image_cache` | which decoded images are at hand, on their way, or broken |
| `binding`, `config` | actions, and how keys and arguments name them |
| `actions`, `app` | the state of the application, and what an action does to it |
| `editing`, `sidebar`, `panels`, `labels`, `overlay` | what the panels change and show |
| `search`, `order` | search in annotations, and photos that are alike |
| `embed`, `cluster` | vectors from an outside command, and groups of photos by their vectors |
| `template`, `text`, `scalar`, `cli` | script arguments, text, numbers by their bits, file names |

Numbers in single precision are held by their bits (`scalar::Scalar`). The library compares and
clamps them; where a decision needs them added or multiplied, it says what it needs (`Work`, `Need`,
`Arithmetic`), and takes the result back. Steps that alternate with such arithmetic or with files are
small machines: `FilterRun`, `GroupRun`, `DiverseRun`, and the pairs of a step and what settles it.

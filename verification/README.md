# arkanoid

The rules of a single-player Arkanoid clone as a verified library, and a native
front end for it.

`src/` is the library. Verus proves its functions against their contracts, free of
panics and overflow. Seven items are trusted instead: five calls into `rand` in
`chance`, and in `text` the quoting of a character and `String::push`. The doc
comment of each says what is taken for granted.

- `levels`, `levelset`, `text`: the built-in levels, the levelset file format and
  the record of completed sets
- `game`, `events`, `chance`: states, lives, balls, bricks, score and power-ups
- `assets`, `sheet`, `render3d::atlas`: sprite sheets, drawn byte for byte
- `render`, `render3d`: which quads, slabs, spheres and lines of text a frame shows
- `cli`, `display`, `bench`: flags, window rules and the drawing benchmark
- `levelset_laws`, `game_laws`, `tick_laws`: what holds over many steps, such as
  that a life is lost with the last ball only, that a tick reports exactly what it
  did, or that winning the built-in levels scores 8340

The library does no arithmetic on positions and speeds. Types that carry them are
generic in the number type, and the front end reports what its bodies did: which
bricks a ball touches, whether it dropped out, how far a capsule fell.

`app/` is that front end: physics in `f32`, a window, two renderers and the files
on disk. Run under the name `bench_render3d` it measures drawing instead.

## Controls

| Key                 | Action           |
|---------------------|------------------|
| Left / Right, A / D | Move the paddle  |
| Space               | Launch the ball  |
| Escape or P         | Pause / resume   |
| R in the menu       | RANDOM10         |

RANDOM10 plays up to ten levels of the loaded set, chosen at random, in place of
all of them.

## Flags

| Flag                | Meaning                                               |
|---------------------|-------------------------------------------------------|
| `--levelset <path>` | Play a levelset file, or list the sets of a directory |
| `--assets <dir>`    | Directory of sprites; warns and draws its own instead |
| `--renderer 3d`     | Draw the view in depth                                |

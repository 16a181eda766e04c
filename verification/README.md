# LCARS Wallpaper

An LCARS interface running as an animated Windows desktop wallpaper, controlled from a
tray icon. `src/` is a verified library with the decisions the program takes; `app/`
carries them out.

*Reload wallpaper* in the tray reads the settings file again before it opens the windows,
so that what was edited there, such as the insets, takes effect.

| Module | What it decides |
| --- | --- |
| `desktop` | which window is the wallpaper surface, and whether other windows leave any of the wallpaper showing |
| `layout` | where the windows go, and what each of them shows |
| `wallpaper` | opening, pausing, waking and parking the windows; which page gets which action |
| `supervisor` | what a tick of the clock leads to; what the pages are answered |
| `menu`, `tray`, `choices` | the tray menu, what its items do, and that the check marks follow |
| `settings`, `modules` | everything the user can choose, and picking a module by chance |
| `background` | the static wallpaper underneath, and the black bitmap |
| `bridge`, `json` | the scripts that are handed to the pages |
| `stats`, `render` | how readings are shown, and how finely the browser draws |
| `geometry`, `region` | rectangles, and areas with windows cut out of them |
| `binary64` | double precision numbers as bit patterns, compared exactly |
| `text`, `wide` | plain text and UTF-16 |

Arithmetic on floating point numbers is left to `app/`, and so are the calls into
Windows, the browser and the file system. Before a call whose precondition depends on
what the system reports, `app/` asks the function that tests it, such as
`desktop::can_place` or `layout::plan_fits`.

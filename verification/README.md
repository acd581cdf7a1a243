# typing_game

A typing game for the terminal: races of a fixed number of words, games against
the clock and endless games, on texts read from files or on words drawn at random
from a word list.

- `src/` is the game's logic, verified with Verus: cutting texts and word lists
  into the text of a game (`text_source`, `text_generator`, `words`), laying the
  text out in lines and following what is typed (`text`), the screens and their
  menus (`menus`, `list`, `games`, `text_settings`), the router that changes
  screens (`screens`), the whole application state that hands each action to the
  screen shown (`app_store`), the settings (`settings`, `config`) and the record of
  a background computation (`deferred`).
- `app/` is the program around it: reading keys, the frame loop, loading files in
  the background, writing the settings, and drawing with ratatui.
- `tests/` runs the library on concrete cases.

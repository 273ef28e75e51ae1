# farm_plugins

Verified core of four Farm build-tool plugins, written in Verus.

- `remove_console` (with `js_ast`): removes `console.*(..)` call statements
  from a module, keeping excluded methods, shadowed `console`s and computed
  properties.
- `resources_injector` (with `html_ast`): clears local scripts, entry scripts
  and stylesheet links from an HTML tree and injects the build's resources
  into `<head>` and `<body>`.
- `progress`: module counting, the message text and the progress-bar
  decisions of each build hook.
- `tsconfig_paths`, `tsconfig_loader`, `path_matcher`, `json`: resolution of
  imports through the `paths` table of the nearest `tsconfig.json`, as a
  state machine whose file-system questions the caller answers.
- `glob_pattern`, `path_text`: the calls into the `glob` crate and
  `std::path`, with the contracts the rest relies on.
- `text`: verified string helpers.

`app/` holds what cannot be verified: option parsing with serde, the file
system driver of import resolution, and the terminal progress bar.

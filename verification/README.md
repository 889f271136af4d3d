# ufpm

An unofficial command-line package manager for [FoundryVTT](https://foundryvtt.com), with a core
that is verified with [Verus](https://github.com/verus-lang/verus).

- `src/` is the library: everything the program decides. It does no I/O. What was read from the
  disk or the network comes in as plain values; what is to be done, and what the user is told,
  comes out as plain values. Operations that take several steps on the outside, such as a download,
  an installation or a dependency resolution, are machines: they name the next step, and take what
  came of it.
- `app/` is the program around it: the command line, the terminal, the file system, HTTP, the
  world databases and the file formats.
- `tests/` exercises the library on concrete values.

## What is proved

Every function states what it returns, and on which inputs it fails. On top of that, these hold
for all inputs, and are stated next to the code they are about, most of them as public proof
functions:

- **Installs are transactions** (`install::transaction`): whatever fails, the previous version of a
  package stays, is put back or is whole in the backup; a crash at any moment is healed by the
  recovery sweep of the next run; a successful installation leaves no staging directory, backup or
  archive behind, unless removing one fails; a removal is one atomic disappearance.
- **Downloads are resumable** (`install::download`): a destination never holds half a file, a torn
  download keeps everything it received, and a resumed one completes the same content.
- **Extraction stays inside** (`install::extract`): no archive entry leaves the staging directory,
  and one unsafe entry has the whole archive refused before anything is written.
- **Scans name directories** (`foundry::local`): the id of an installed package is the name of its
  directory, and every directory is a package or reported.
- **Plans are closed** (`resolve`): whatever a planned package requires is installed, planned or
  reported; nothing is planned twice; a requirement beats a recommendation; installed packages are
  left alone.
- **Prune never guesses** (`commands::package::unused`, `foundry::worlds`): a package is only
  deleted when every world could be inspected and none of them uses it. A world whose module
  configuration cannot be understood counts as one that could not be inspected.
- **Bulk updates are conservative** (`commands::package::updating`): only provably newer versions
  are applied.

What the zip crate, `serde_json` and the Unicode tables answer is not restated: contracts speak of
it by name. An archive entry with a drive inside its name, such as `a/c:b`, is refused or placed
inside the staging directory; which of them, and where, depends on the platform.

What is taken on trust is marked where it stands: the calls into `serde_json`, `zip` and the HTTP
status table of `reqwest`, and a few functions of the standard library.

## Settings

| Variable | Meaning |
|---|---|
| `UFPM_DATA_PATH` | the FoundryVTT root, as `--data-path` |
| `UFPM_FOUNDRY_VERSION` | the FoundryVTT version that is assumed |
| `UFPM_API_KEY` | the key of the package API |

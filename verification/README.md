# isoflash

IsoFlash prepares bootable USB drives: it lists the USB drives of the
machine, installs or updates Ventoy on them, keeps a catalogue of Linux
distributions, finds the current image URL of each one on its mirrors, and
downloads the images into a folder, with a queue that survives restarts.

## Layout

- `src/` is the library, written in Verus. Its functions carry contracts
  (`requires` / `ensures`) that Verus proves, except a few small trusted
  wrappers marked `#[verifier::external_body]`: they make one call into std
  or serde_json, and Verus takes their contracts (where they have one) on
  trust. The modules:
  - `text`: the string operations the rest is built on, with their specs;
  - `json`: a model of the JSON values read with serde_json;
  - `resolver`: reading mirror index pages and choosing the current image URL;
  - `catalog`: the catalogue of distributions, its filters and its refresh;
  - `settings`: languages, translations, the download speed limit and the
    saved settings;
  - `downloads`: the download queue and the life of each download;
  - `devices`: USB drives as `lsblk` and `/sys/block` describe them;
  - `install`: the decisions of a Ventoy installation;
  - `oplog`: the log of a long operation and its outcome;
  - `schedule`: when background work (drive scans, network and catalogue
    checks) is due;
  - `paths`: disk image names and folder suggestions.
- `tests/` runs the library on concrete values.
- `app/` is the command-line program around the library: it runs the
  outside tools (`lsblk`, `curl`, `wget`, `sudo`/`pkexec`), reads and writes
  files, and hands plain values to the library.

Run `isoflash` without arguments for the list of commands.

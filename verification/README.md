# bili_audio

Downloads the audio streams of Bilibili videos, converts them to MP3 with
ffmpeg, and can upload files to a cloud-music service after a QR-code login.

- `src/` is the verified library (Verus): decimal text and its parsing
  (`decimal`), string helpers with their specifications (`text`), a plain
  JSON model and its reader (`json`), video identifiers, request addresses,
  response readers and file names (`bv`), the list file (`config`), the
  command line (`cli`), the converter's command (`ffmpeg`), and the login and
  upload decisions (`upload`).
- `app/` is the program around it: command-line parsing, HTTP, files,
  progress bars, the converter process and the terminal.
- `tests/` runs the library on concrete values.

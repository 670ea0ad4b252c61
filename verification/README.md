# charcoal_dict

Charcoal is a command line dictionary: it looks words up in the Youdao dictionary,
shows pronunciations, meanings, word forms and bilingual examples, can speak the word
through Google's text-to-speech service, and keeps what it fetched in a local cache.

- `src/` is the library, verified with Verus: cache identities and paths, archive
  names, the command line and configuration switches, reading dictionary pages,
  laying entries out, response size limits, and the decisions of fetching speech and
  of racing a lookup against a speech prefetch.
- `app/` is the program around it: argument parsing, files, the network, playback.
- `tests/` exercises the library on concrete values.

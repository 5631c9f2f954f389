# ferrite

A TypeScript-to-JavaScript compiler library, verified with Verus: it lexes
and parses TypeScript, checks types across modules, prints JavaScript with a
source map, and writes `.d.ts` declarations.

Layout:

- `src/` — the verified library:
  - `text`, `token`, `diagnostic`, `source_map`, `paths`: characters, spans,
    error messages with source context, VLQ source maps, `/`-separated paths;
  - `lexer`, `parser/`, `ast`: tokens and the syntax tree; `scan` states
    which tokens a text without strings, templates or comments lexes to
    (longest match);
  - `type_checker/`: types and assignability (`ty`), scopes (`env`), and the
    checker (`infer/`: narrowing, annotations, expressions, statements, and
    the rules it applies);
  - `codegen/`: JavaScript output, specified by `codegen::printed`;
  - `decl_emit`: declaration output;
  - `config`: tsconfig/ferrite.config text handling and path aliases;
  - `compiler`: building a project from parsed modules;
  - `loader`: which files to read, depth first, so that every module is
    registered after the modules it imports.
- `app/` — the `ferrite` command: finding and reading configuration files
  and sources, decoding JSON with serde, writing the outputs.
- `tests/` — unit, scenario and stress tests.

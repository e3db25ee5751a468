# Zngur

A generator of the glue between Rust and C++. It reads interface files (`.zng`), which declare
the Rust types, traits and functions that C++ uses and the C++ functions that Rust uses, and
makes the two halves of the bindings: a Rust file and C++ files.

The library is written in Verus. What each function returns is stated in its contract over
mathematical models of its inputs, and proved.

## Reading

| Module | What it holds |
| --- | --- |
| `text`, `paths` | strings: cutting, joining, numbering, filling templates; paths of files |
| `rust_types`, `def` | Rust types, and what an interface holds |
| `token`, `lexical`, `peg`, `grammar`, `depth` | from text to tokens to a tree |
| `scope`, `lower` | what paths name, and what trees say |
| `cfg`, `conditional` | configuration, `#if` and `#match` |
| `report`, `work` | errors and warnings, and the interface while it grows |
| `type_item`, `items` | reading declarations |
| `template_types`, `merge`, `finish` | templates, several declarations of one thing, what is missing |
| `parse`, `growth` | reading a file and the files that it merges |

`parse::ParseSession` asks for the files that are merged one by one; who holds it reads them.

## Writing

| Module | What it holds |
| --- | --- |
| `cpp`, `into_cpp` | C++ names and types, and those that stand for Rust types |
| `mangle` | link names |
| `coro` | support for futures |
| `cpp_file`, `header`, `cpp_templates` | the C++ half and the parts of its header |
| `rust_file`, `rust_templates` | the parts of the Rust half |
| `halves`, `generator`, `render` | what the halves are, and making them |
| `builder` | the choices behind a run |

`outside` holds every call into another crate, and the few of the standard library that Verus
has no contract for. What is stated there is believed.

Properties that span several functions are proof functions whose names start with `law_`.

## Around the library

`app/` is the program: the command line, files, showing reports, and laying out the C++ files.
`tests/` runs the library.

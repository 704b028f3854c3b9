# canyon_macros

The code generators behind Canyon's entity and CRUD macros, with their decisions proved
in Verus.

- `src/` is the verified library. It works on plain descriptions of the macro input
  (`attribute`, `types`): the field annotations (`field_annotation`, `manager`), the
  naming conventions between types and tables (`naming`), what the CRUD derives read from
  a struct (`macro_tokens`, `crud_attribute`, `primary_key`, `helpers`), the SQL
  statements and method names written into generated code (`queries`), the descriptions
  of generated methods (`operation_builder`, `operation`), the entity register
  (`entity`, `register_types`) and the checks of the entry points (`entry`). The laws of
  the library are public proof functions named `law_*`.
- `tests/` runs the library on concrete inputs.
- `app/` is the token shell: it reads `syn` syntax trees into the library's descriptions
  and writes the generated code with `quote`.

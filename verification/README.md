# frontary

The data, rules and state machines behind a set of web form and list
components, written in Verus with their behaviour stated as contracts and
proved.

- `src/` — the verified library: parsing and ordering of IPv4 hosts,
  networks and ranges; password rules; comparisons and their stored form;
  checkbox states and their propagation through nested boxes; required and
  unique fields; page navigation; the order, checks and controls of lists;
  the editors of host/network and tag fields; the input form's reaction to
  the inputs of its text, number, password, select, radio, tag, comparison,
  host/network, checkbox, network-interface and group fields and to saving
  (`form::update_form`), and the form items a list row's columns become
  (`row_item`); notifications; the texts of
  list columns; localized texts.
- `tests/` — tests of the library on concrete values.
- `app/` — the browser side: local storage of the language, measuring
  rendered text, serde forms of the library's types, and what involves
  floating-point numbers (float and percentage columns, the index of nested
  form items).

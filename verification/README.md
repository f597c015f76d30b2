# Shopify Inventory Manager

Keeps the stock and the prices of a Shopify store in step with price files.
A CSV file or a workbook is dropped into a watched folder; prices and
quantities of known products are updated, and new products enter the store as
drafts. There is a daily run, a bulk run with a report, a correction of SKUs that
lack their prefix, mail to the administrator, and a stand-in for the store for
trying things out.

## Layout

- `src/` is the library, verified with Verus. It holds the decisions: what is
  sent to the store and in which order, what its answers mean, how price files
  and worksheets are read, what happens to a file that is taken in, what is
  reported. A procedure that talks to the store is a state machine: it hands out
  an `Action`, and takes the `Reply`.
  - `text`, `numbers`, `json`: texts, numbers and documents.
  - `exchange`, `api`: the conversation with the store and its requests.
  - `models`: products, and what the store says about them.
  - `program`: the modes, the menu, the daily run and the taking in of files.
  - `services`: the procedures.
- `app/` is the program around it: HTTP, mail, files, the clock, the menu, and
  floating-point numbers, which the library carries by their texts.
- `tests/` runs the library on concrete values.

What the library takes from outside crates stands behind a few functions marked
`external_body`; the doc comment of each says what is taken for granted.

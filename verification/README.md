# deft (verified core)

The text-editing and widget-state core of the Deft UI framework, written in Verus and proved
against its contracts.

- `src/text_model.rs`, `src/text_box.rs`: lines of text, carets and selections, and how a caret
  maps to a character offset.
- `src/edit_history.rs`, `src/editable.rs`: the undo/redo history and the editable text field
  (typing, deleting, caret moves, key handling, input-method compositions, undo and redo, the
  text events each change makes due, the disabled state).
- `src/caret.rs`: focus and caret blinking of an editable field.
- `src/element.rs`: script event names, form input blocking on disabled elements, element ids,
  ancestry.
- `src/computed.rs`: values under text keys and the consumers that depend on them.
- `src/font_manager.rs`, `src/paragraph_builder.rs`, `src/paragraph.rs`, `src/number.rs`: font
  selection by slant and weight, per-character font resolution and font runs, style value
  parsing (weights, decorations, decimal numbers).
- `src/radio.rs`, `src/checkbox.rs`, `src/select.rs`, `src/label.rs`, `src/scroll.rs`,
  `src/richtext.rs`: widget state.
- `src/image_object.rs`: where an image source comes from, `data:` URLs decoded with `base64`.
- `src/laws.rs`: properties that span several operations (undo reverts typing, redo re-applies
  it, history bounds over any run, id numbering and removed consumers over any run, event ids,
  caret moves).
- `app/`: thread hand-off, callbacks that cross threads, the wall clock for frames, and the
  clipboard, composition offsets and event hand-off around an editable field.

## Not in this crate

- Touch and wheel scrolling of a scroll container (its event handler): scroll offsets, momentum
  and animation are floating-point values and timings. Only the decision whether a container
  takes an event at all (`scroll::takes_event`) is here.
- The application's event-loop dispatch of its own events (window binding, soft keyboard,
  callbacks, render and update requests): it runs on the windowing library's event loop and
  wakes waiting threads.
- Applying an element's own CSS styles: style properties are floating-point lengths and colours
  handed to the layout engine.

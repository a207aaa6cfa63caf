# hexotk

The core of a small GUI toolkit for audio plugins.

- `src/` is the verified library: the state widgets keep outside themselves
  (`WidgetData`, `DynData`), mouse buttons and widget events, and the frame
  timing of the window (`window::FrameTimeMeasurement`, its reports, the frame
  counter and the mapping of window-system mouse buttons), with the laws they
  keep.
- `app/` is the rest: geometry and drawing types (which use floating point),
  the UI traits that users implement, and the window event loop over
  `baseview` and `femtovg`.
- `tests/` exercises the library.

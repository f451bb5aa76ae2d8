# RustyWolf

A small, privacy-focused browser shell on the system webview (WebKitGTK,
WKWebView, WebView2), with its decisions verified by Verus.

- `src/` is the verified library. `browser` is the browser's state machine
  (tabs, keep-in-RAM, session history, downloads, the popup gate): each event
  yields a new state and the effects the shell performs. `address` is the URL
  bar and the new-tab filter, `chrome` and `json` the scripts sent to the
  chrome page, `properties` the Properties page, `cli` the command line,
  `launch` the settings decided before a window opens, `downloads` where
  files are saved, `laws` what holds across inputs and steps.
- `app/` is the program: the window, the webviews and the event loop
  (tao and wry), the network request for a download's size, and the files on
  disk.
- `tests/` exercises the library on concrete values.

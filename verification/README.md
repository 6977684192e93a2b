# baam_3ds

A client for the BAAM attendance service on the Nintendo 3DS. The top screen shows the camera
viewfinder; the bottom screen shows a small terminal with status lights. The user logs in by
scanning a login QR code and then marks attendance by scanning challenge QR codes.

## Layout

- `src/` is the library, verified with Verus:
  - `blend`, `image`, `texture`, `effects`: RGB565 colors, views into pixel buffers, packed
    1/2/4-bit textures and the drawing rules for them;
  - `encoding`: the single-byte code pages used by the terminal font;
  - `timer`, `scene`, `lights`: the bottom-screen scene, its terminal and its lights;
  - `viewfinder`: rotating the camera image for the top screen's frame buffer;
  - `qr`, `api`, `settings`, `ui`, `flow`: recognizing scanned codes, describing the server
    requests, the settings cache, the terminal texts, and the login/attendance flow as a state
    machine;
  - `spmc_buffer`: the bookkeeping of the frame-buffer pool shared by the camera and its readers.
- `tests/` runs the library on concrete values.
- `app/` is the program around the library: the 3DS services (camera, Y2R converter, screens,
  input), the HTTP client, the QR recognizer bindings, the settings file, and the threads.

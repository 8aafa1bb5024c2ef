# optical_detector

Captures frames from a CSI colour camera (Argus), stamps them with wall-clock
time, reports their latency, and saves the first stable frame and the latest
one.

`src/` is the library, verified with Verus:

- `nv12`: NV12 (full-range YUV 4:2:0) to packed RGB;
- `timestamp`: UTC instants, and their derivation from monotonic clock readings;
- `capture`: the steps of the capture thread, and what it makes of a frame;
- `gpio_sync`: the steps of the listener on the camera's SYNC line;
- `csi_color`: the camera as its user sees it;
- `frame_log`: numbering, latency, and which frames are saved;
- `save_slot`: the slot for the latest frame;
- `arith`: integer arithmetic shared by the others.

`app/` is the program around it: threads, channels, files, the Argus and GPIO
calls, and the monotonic clock.

Set `AE_WARMUP_FRAMES` to the number of frames to skip while auto-exposure
stabilises (100 unless set).

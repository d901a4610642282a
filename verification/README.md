# KB Android Emulator Manager — verified core

The decision logic of a desktop launcher for Android Virtual Devices, written in Verus:
what goes into an AVD's `config.ini`, which flags the emulator is started with, how the
`sdkmanager` listing becomes the list of offered system images, how progress is read
from tool output, and which environment the SDK tools get.

* `src/` — the verified library. `config`, `avd`, `launch`, `sdk_packages`, `progress`,
  `install`, `system`, `env`, `paths` and `registry` hold the logic; `text`, `number`
  and `case` the text model it is stated over; `laws` the properties that span
  several operations.
* `tests/` — tests of the library on concrete inputs.
* `app/` — the Tauri shell around the library: commands, files, processes, downloads.

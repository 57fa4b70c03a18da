# win_global_gpu

Sets the GPU that Windows programs run on, globally, by writing per-program
preferences under `HKEY_CURRENT_USER\Software\Microsoft\DirectX\UserGpuPreferences`,
and switches them when the charger is plugged in or out.

- `src/` is the verified library (Verus):
  - `strings`: characters, white space, trimming, UTF-16 encoding and decoding, file names;
  - `exe_set`: the sets of executable names;
  - `exclusions`: the exclusion file (`excluded_exes.txt`);
  - `programs`: file names of program paths and the list of programs to manage;
  - `registry`: which preference each program gets, and the registry value data;
  - `transaction`: the registry write as a step machine, with its success, rollback and
    key-replacement laws;
  - `optimus`: switching through the NVIDIA control panel (not implemented);
  - `cli`: subcommands, the start-up sequence, notices and panic reports.
- `app/` is the Windows program around it: registry and UI calls, file reading,
  the panic hook and argument handling.
- `tests/` holds the tests of the library.

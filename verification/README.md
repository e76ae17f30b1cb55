# stall

Verified controller logic for a flying-ghost prop that rides a rope back and
forth. A brushed DC motor drags the carriage; when it runs into a stopper the
motor stalls, the sense current jumps, and the carriage turns around.

```
src/    the logic, verified with Verus
tests/  host tests: synthetic traces pushed through it
app/    the RP2040 firmware around it: ADC, PWM, GPIO, USB log
extras/ the memory map that the firmware is linked with
```

| Module | What it holds |
|---|---|
| `config` | tuning parameters and their ranges |
| `direction` | travel direction, reasons for a reversal |
| `clock` | elapsed time on a 32-bit millisecond clock that wraps |
| `model` | the detector as mathematics: state, one reading's effect |
| `detector` | the stall detector, proved against `model` |
| `arith` | threshold, moving average and soft-start ramp |
| `laws`, `history` | what holds of every call, and of every sequence of calls |
| `controller`, `cycle` | the control loop with its dwell, and what holds of it |
| `sense` | oversampled ADC readings averaged, or a replayed trace |
| `bridge` | H-bridge pin sequences and PWM settings |
| `replay` | a fixed trace for bench tests |
| `telemetry` | what goes into the log |

No public function of the library has a precondition, and
none panics: the carriage runs unattended for hours.

## Wiring

| Pico pin | Signal | To |
|---|---|---|
| GPIO16 | `PWMA` | TB6612FNG `PWMA` |
| GPIO14 | `AIN1` | TB6612FNG `AIN1` |
| GPIO15 | `AIN2` | TB6612FNG `AIN2` |
| GPIO13 | `STBY` | TB6612FNG `STBY` |
| GPIO26 | `SENSE` (ADC0) | top of the current-sense resistor |
| GND | — | battery negative, not the driver's GND pin |

## Linking the firmware

The target is `thumbv6m-none-eabi`. Pass the linker `--nmagic`, `-Tlink.x` (from
`cortex-m-rt`) and `-Tlink-rp.x` (from `embassy-rp`, which places the second-stage
bootloader), with `extras/` on its search path for `memory.x`.

## Tuning

`stall_ratio_pct` sets the sensitivity: higher is less sensitive. Plug the Pico
into a laptop and capture the CSV log; every tenth tick prints
`t_ms,sample,baseline,threshold,confirm,dir,duty`, and every reversal a
`# reversal ...` line with its reason. Build with `RUSTFLAGS="--cfg silent"` to
compile this out for the deployed unit, with `--cfg replay` to bench-test without
the prop, and with `--cfg blink` to check the toolchain.

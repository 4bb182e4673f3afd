# uflowmeter

The logic of an ultrasonic water meter for the MSP430FR6043, built for a battery, verified with
Verus: everything that decides or computes, with contracts stating what it does.

`src/` is the verified library:

* `config` — the settings, and why each is the low-energy one; `energy` — what they add up to.
* `legal` — the metrology: the flow equation (`flow`), the reading kept in FRAM with its shadow
  copy and checksum (`totals`), the sealed per-instrument calibration (`params`), the FRAM layout
  (`fram`) and the software identification (`identity`).
* `meter` — one measurement cycle and the adaptive interval.
* `calibration` — the production protocol a flow rig speaks before the instrument is sealed.
* `radio` — the wireless M-Bus frame (`wmbus`) and the CC1101's transfers (`cc1101`).
* `display` — what the OLED shows and the bytes that draw it; `supply` — battery and temperature.
* `crc` — the two CRC-16s both the FRAM records and the radio frame use.

`app/` is the firmware around it: the executor, the HAL, FRAM and register access, the I2C, SPI
and UART drivers. `tests/` exercise the library on concrete values.

# namaz-vakti-logic

Firmware for a 4.0" ESP32 touch display that shows the five daily prayer
times of a chosen district, a live countdown to the next one, and a progress
bar split into the three fıkh zones.

- `src/` is the library, verified with Verus: Arabic shaping, the
  translation tables, calendar and Europe/Amsterdam local-time arithmetic,
  `"HH:MM"` parsing, the prayer timeline and countdown, location search and
  the country/city/district flow, WiFi credential rules and the setup flow,
  the on-screen keyboard, every layout and hit test, the seven-segment clock
  layout, the RAM framebuffer, the touch-controller sampling sequence and the
  LED zone patterns. Each public function states its result exactly; the
  proof functions named `lemma_*` state the laws that tie functions together.
- `tests/` runs the library on concrete values.
- `app/` is the ESP-IDF program around it: display, touch, WiFi, HTTPS,
  SNTP and NVS I/O, JSON (de)serialisation, and the floating-point parts
  (touch calibration fit and the zone thresholds on the elapsed fraction).

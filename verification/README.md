# OhMyEyes

A small desktop reminder for the 20-20-20 rule: every interval it shows a translucent eye on the
selected display, lets every click through, and disappears again.

- `src/` is the library, verified with Verus. It decides what is shown, where and when: the
  schedule, the settings and their ranges, the decoding limits of images, the layout and the
  pixels of the overlay, the choice among displays, the commands between instances, and what the
  program does about each of them. It performs nothing itself; it hands out steps.
- `app/` is the program around it: the settings window, files, sockets, the Wayland surface and
  the layered window of Windows. It performs the steps and reports how they went.
- `tests/` runs the library on concrete values.

Floating-point positions are held as their bits, and the arithmetic on them is proved to round as
single and double precision do.

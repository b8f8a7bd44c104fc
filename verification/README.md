# particles

A particle simulation drawn in a window. The library in `src/` holds its
decision logic, verified with Verus:

- `controls`: the switches the keyboard sets (gravity, wind, tint modes,
  advanced mode) and how a key event changes them;
- `event`: what the event loop does after each window event;
- `frame`: which physics phases a step runs, in order;
- `tint`: how each particle is coloured;
- `system`: the particle system, which is generic over the particle type, and
  how advanced mode grows it;
- `collide`: counting the close pairs of a group of particles into the
  collision counter;
- `pairs`: laws on that count: it does not depend on the particles' order, and
  a group's count is its parts' counts plus the close pairs across the cut.

`app/` is the program: the window and drawing (glium), the worker pools
(scoped_threadpool), random numbers (rand) and the floating-point physics of
the particles themselves.

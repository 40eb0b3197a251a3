# prism-notify

A notification daemon: an `org.freedesktop.Notifications` server whose cards are drawn with the
damascene toolkit on a `wlr-layer-shell` surface.

- `src/` is the library. It holds every decision of the daemon, with contracts that Verus proves:
  the stack and its expiry, markup, images, hints, configuration, what the user sees and clicks,
  and what is asked of the surface.
- `app/` is the program. It talks to the bus, the compositor, the GPU and the file system, hands
  the library what happened and does what the library asks for.
- `tests/` runs the library on concrete values.

## Behaviour

- Cards stack newest first in a corner; those beyond `max-visible` collapse into a "+N more" line.
  In a bottom corner the stack grows upward.
- A button invokes its action, a click on the body the `default` action; without one it dismisses,
  as the cross does. The client learns of an action before its notification is closed.
- An image comes from `image-data`, `image-path`, `app_icon` or `icon_data`, in that order: raw
  pixels, or the path or `file://` URI of a PNG file.
- Bodies are stripped to plain text.
- Critical cards are opaque, stand out and never expire; cards of low urgency are more translucent.
- A replacing notification takes the place of the one it replaces and starts its own timer.
- The daemon exits when it loses its bus name.
- The configuration (KDL, at `$PRISM_NOTIFY_CONFIG`, `$XDG_CONFIG_HOME/prism-notify/config.kdl` or
  `~/.config/prism-notify/config.kdl`) is loaded anew when its file was changed and then left alone
  for 150 ms. One that cannot be used is reported, and the running one stays.

# vfsmount_tray

The logic of a system tray for rclone VFS mounts, verified with Verus, and the programs
around it.

A service owns the mounts: it starts each as a systemd user unit, watches the kernel's mount
table, polls every rclone for what it still has to upload, and serves all of that over D-Bus.
The tray and the command line are its clients. What decides stands in `src/`, as functions
and step machines on plain values; what touches the machine stands in `app/`, which performs
what the library asks for and hands back what came of it.

## The library

| Modules | What they decide |
| --- | --- |
| `supervisor::start`, `supervisor::unmount`, `supervisor::waiting`, `supervisor::prepare` | bringing a mount up and taking it down, one question at a time |
| `supervisor::orphans`, `supervisor::targets`, `supervisor::state` | which units serve what, and what a mount is doing |
| `poller`, `transfer`, `rate` | what is outstanding on a mount, and how well that is known |
| `registry`, `watch`, `table` | what clients are told, and when to look again |
| `systemd`, `journal`, `mountinfo`, `config`, `rc`, `args` | units, their words, the mount table, names and sockets |
| `ipc`, `link`, `session` | what travels between the halves, and the link over its lifetime |
| `model`, `menu`, `sni`, `quantity`, `wrap` | what the tray shows |
| `client`, `actions` | what the subcommands print, and what clicks lead to |
| `text`, `paths`, `json`, `errors`, `scratch` | what the rest is made of |

Among what is proved: an unmount asks the kernel before it signals rclone, and detaches
nothing unless it was forced and the unit is stopped; a mount is never brought up over one
that somebody else has; no mount is called idle under a cache mode that lets writes pass the
queue; a client that follows the changes sees the mounts; and a tray that cannot see the
service shows nothing of any mount.

Calls into `serde_json`, and the few into the standard library that have no specification,
stand behind small functions whose contracts are trusted. They are in `json.rs` and `text.rs`.

# rs-drivelist

Lists the storage devices of a machine and describes each one (bus, size,
block sizes, partition table, mount points, flags), with a JSON shape for
every description.

- `src/` is the verified library (Verus):
  - `device.rs`: `MountPoint` and `DeviceDescriptor`, their defaults, the
    mount point of an `lsblk` entry, and their JSON shape (`JsonNode`).
  - `windows.rs`: the decisions of the Windows enumeration, taken from the
    plain answers of the system: bus and enumerator names, volume letters,
    mount points of a disk, device numbers, `get_detail_data`, the step
    function that fills in a disk's description question after question,
    and `list_step`, the step function that builds the list of devices.
  - `text.rs`: decimal rendering, comparison, search and trimming of text.
- `app/` asks the system (Windows setup, registry, environment, free space
  and I/O control calls), runs the two step functions, and turns `JsonNode` values into
  `json` values for printing.
- `tests/` runs the library on concrete answers.

# dtar

A tar archive tool. The decisions it makes are verified with Verus in `src/`:

- `format`: recognising gzip, xz, tar and zstd files by their leading bytes,
  and choosing the format of a new archive from its file extension;
- `codec`: which decoder reads a format and which encoder, at which
  compression level, writes it;
- `extract`: which archive entries pass the filters, which are unpacked at
  once and which directories wait until the end;
- `order`: the order in which the held-back directories are unpacked;
- `create`: what goes into a new archive, what is measured for the progress
  total, and whether an existing file may be overwritten;
- `listing`: how a path is laid out in the tree listing;
- `mode`: how an extraction reads the archive to show its progress (the
  direct, processor, memory, storage, storage-keep and sync modes).

`app/` holds the command line program: argument parsing, file and archive
I/O, compression streams and progress bars.

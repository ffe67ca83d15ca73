mpeg2ts-reader
==============

Zero-copy access to the structure of an MPEG Transport Stream, with the parsing and
demultiplexing logic proved correct by Verus.

The crate recognises the structural elements of Transport Stream syntax (packets, adaptation
fields, PSI sections, the PAT and PMT tables, PES headers and descriptors) and hands them to
traits that an application implements for its own processing of the contained data.

Layout
------

- `src/` is the verified library.
  - `packet.rs`: transport stream packets, PIDs, adaptation fields and clock references.
  - `psi/`: the section framer that reassembles PSI sections from packets, section
    deduplication and CRC checking, and the PAT, PMT and TSDT tables; `psi/chunking.rs` proves
    that the framer's result does not depend on how its input is split into packets.
  - `demultiplex.rs`: the demultiplexer, routing packets to a filter per PID, and the PAT and
    PMT processors that ask for filters for the programs and streams they announce.
  - `pes.rs`: PES headers and the filter that turns packets into calls on an
    `ElementaryStreamConsumer`.
  - `descriptor/`: descriptors found in PSI tables.
  - `mpegts_crc.rs`: the CRC-32 used by PSI sections.
  - `unpacketise.rs`: splitting a byte stream into whole packets.
  - `error.rs`: the problems reported while demultiplexing, and the `ErrorSink` trait that
    receives them.
- `tests/` holds the tests, run against the compiled library.
- `app/` holds what is ordinary Rust around the library: display formatting of its values, the
  `demux_context!` and `packet_filter_switch!` macros, and a fuzzing harness.

Each public function states what it returns or changes in its `requires` / `ensures` contract,
over spec functions on sequences of bytes.

The traits that an application implements (`PacketFilter`, `DemuxContext`, `ErrorSink`,
`ElementaryStreamConsumer`, the section parser traits, `PacketConsumer`, `Descriptor`) each
carry a spec function describing how a call may change the implementation (any change, unless
the implementation says more), and their methods promise it.  The library's stream functions
state their effect through these: the framer's parser and context change by the sections it
delivers, the problems it reports and the resets it makes, in the order it records them; the
demultiplexer's filters and context change packet by packet, as filters are constructed,
consume packets and queue changes that are then applied; the PES filter's consumer changes by
the calls it receives; the version and CRC checks pass a section on to the parser they wrap,
or drop it (reporting a CRC failure to the context); and the table processors' context changes
by the filters constructed and the changes queued.

Laws relating several calls stand as public proof functions beside the code they speak of.  The
framer makes the same calls on its parser and context, in the same order (so delivers the same
sections and reports the same problems), whether its section data arrives at once or in pieces
(`psi::chunking::lemma_feed_split`, over the framer's model, which `Framer::consume` ties to the
calls it makes); whole sections, however they are split, are each delivered once, in order,
with no problem reported (`psi::chunking::lemma_whole_sections_delivered` and
`lemma_whole_sections_split`); pushing two buffers to the demultiplexer, the
first of whole packets, leaves its filters and the context as demultiplexing both packets in
turn does (`demultiplex::lemma_push_resumes`); and a PAT or PMT section that gets past the
version and CRC checks of a filter's chain changes the context exactly as the table processor's
calls do, constructing and queuing a filter for each program or stream listed, then queuing the
removals (`demultiplex::lemma_pat_chain_section`, `lemma_pmt_chain_section`), as does a packet
carrying such a section handed to a PAT or PMT filter (`lemma_pat_filter_packet`,
`lemma_pmt_filter_packet`, through `psi::chunking::lemma_one_section_packet`).

The `stream_type` codes named by the standard are in `stream_types.rs`.

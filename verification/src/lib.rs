//! Polling sensors for host observability.
//!
//! Each sensor takes a snapshot of some state of the machine at every
//! tick, compares it with the snapshot before, and says which events are
//! due: `filescream` for files under watched directories, `netpacket` for
//! TCP and UDP connections, `procdog` for named processes, `xmount` for
//! mount points. `callbacks` says which consumers an event reaches and in
//! which order, and `sensor` when the loop of a sensor ends.
//!
//! The library decides and decodes. It reads no file and waits for
//! nothing: the caller hands it what the operating system says and carries
//! out what the library answers.

pub mod callbacks;
pub mod filescream;
pub mod names;
pub mod netpacket;
pub mod procdog;
pub mod sensor;
pub mod text;
pub mod xmount;

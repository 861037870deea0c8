//! Tempo flexibility for adaptive agent scheduling.
//!
//! Agents stretch and compress their work timing around a target tempo, the
//! way a musician plays rubato around a steady beat. This library holds the
//! structure of that scheduling: tempo markings and rubato profiles, tempo
//! curves and their shapes, followers that track a leader's beats in a
//! sliding window, leaders with a table of followers and a curve in
//! progress, and session maps that find the marking in effect at any point.
//!
//! Tempos are a type parameter `B` throughout, so the library decides
//! everything that rests on integers, booleans and collections, and leaves
//! the arithmetic on tempos to the caller. Markings on a session map are
//! placed by integer keys that order them along the session.
//!
//! Modules:
//! - `shape`: the shapes of tempo curves and their classification;
//! - `marking`, `profile`, `curve`: tempo markings, rubato profiles, curves;
//! - `window`, `follower`: the window of observed beats and the follower;
//! - `registry`, `leader`: the table of followers and the leader;
//! - `position`, `timeline`, `map`: integer keys for beat positions,
//!   markings ordered by key, and the session map.

pub mod shape;
pub mod marking;
pub mod profile;
pub mod curve;
pub mod window;
pub mod follower;
pub mod registry;
pub mod leader;
pub mod position;
pub mod timeline;
pub mod map;

pub use shape::CurveShape;
pub use marking::TempoMarking;
pub use profile::RubatoProfile;
pub use curve::TempoCurve;
pub use window::BeatWindow;
pub use follower::TempoFollower;
pub use registry::FollowerTable;
pub use leader::TempoLeader;
pub use timeline::{MarkingTimeline, TempoMapEntry};
pub use map::TempoMap;

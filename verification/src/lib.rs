//! Decoding of League of Legends assets into plain, engine-independent
//! values, and the rules of their import.
//!
//! * [`archive`] opens the archive container, finds entries by hash and
//!   reads their payloads.
//! * [`mesh_decode`] and [`texture_decode`] decode the layouts of meshes and
//!   of textures into the values of [`mesh`] and [`texture`].
//! * [`pixels`] and [`transform`] hold the transforms on textures: the bleed
//!   of colour into transparent pixels, the mip chain, the block codecs.
//! * [`pipeline`] imports one asset, or a batch, with its [`options`].
//! * [`importers`], [`loaders`] and [`plugin`] are what an editor sees.
//!
//! Every function is verified against its contract with Verus. The three
//! outside codecs are called through the trusted functions of [`codec`].
//! Numbers with a fraction are kept as their IEEE-754 bits and never
//! computed with.

pub mod archive;
pub mod bytes;
pub mod checksum;
pub mod codec;
pub mod error;
pub mod importers;
pub mod loaders;
pub mod mesh;
pub mod mesh_decode;
pub mod mesh_fields;
pub mod options;
pub mod pipeline;
pub mod pixels;
pub mod plugin;
pub mod texture;
pub mod texture_decode;
pub mod transform;

pub use importers::{MeshImporter, TextureImporter};
pub use loaders::{MeshLoader, TextureLoader, WadLoader};
pub use plugin::LtkEditorPlugin;

//! The loaders: each takes the bytes of one file, decodes them, and keeps
//! what it decoded to answer questions about it.
//!
//! Reading the file is the caller's part. The name of the file is kept as
//! it is given and tells the layout by its extension; where it tells none,
//! the first bytes of the file do.

use vstd::prelude::*;
use vstd::string::StringSliceAdditionalSpecFns;
use crate::archive::{archive_defect, table_of, Archive};
use crate::error::ImportError;
use crate::mesh::{Bounds, Geometry, Mesh, Vector3};
use crate::mesh_decode::{decode_mesh, decoded_mesh};
use crate::pipeline::{
    choose_mesh_format, choose_texture_format, hint_of, mesh_format_for, texture_format_for,
    FormatHint,
};
use crate::texture::{Image, Texture};
use crate::texture_decode::{decode_texture, decoded_texture};

verus! {

/// The number `n` as an `i32`, or the largest `i32` where it is beyond.
pub open spec fn count_of(n: nat) -> i32 {
    if n > i32::MAX {
        i32::MAX
    } else {
        n as i32
    }
}

/// The box of a loader that holds no mesh.
pub open spec fn no_bounds() -> Bounds {
    Bounds { min: Vector3 { x: 0, y: 0, z: 0 }, max: Vector3 { x: 0, y: 0, z: 0 } }
}

/// What the bytes of a file decode to as a mesh, the layout told by the
/// file's name or by its first bytes.
pub open spec fn loaded_mesh(name: Seq<u8>, s: Seq<u8>) -> Result<Geometry, ImportError> {
    if s.len() == 0 {
        Err(ImportError::MissingInput)
    } else {
        match mesh_format_for(hint_of(name), s) {
            None => Err(ImportError::InvalidMagic),
            Some(format) => decoded_mesh(s, format),
        }
    }
}

/// What the bytes of a file decode to as a texture, the container told by
/// the file's name or by its first bytes.
pub open spec fn loaded_texture(name: Seq<u8>, s: Seq<u8>) -> Result<Image, ImportError> {
    if s.len() == 0 {
        Err(ImportError::MissingInput)
    } else {
        match texture_format_for(hint_of(name), s) {
            None => Err(ImportError::InvalidMagic),
            Some(format) => decoded_texture(s, format),
        }
    }
}

fn clamp_count(n: usize) -> (count: i32)
    ensures
        count == count_of(n as nat),
{
    if n > i32::MAX as usize {
        i32::MAX
    } else {
        n as i32
    }
}

fn clamp_size(n: u32) -> (count: i32)
    ensures
        count == count_of(n as nat),
{
    if n > i32::MAX as u32 {
        i32::MAX
    } else {
        n as i32
    }
}

/// The loader of meshes.
pub struct MeshLoader {
    pub path: String,
    pub mesh: Option<Mesh>,
}

/// The loader of textures.
pub struct TextureLoader {
    pub path: String,
    pub texture: Option<Texture>,
}

/// The loader of archives.
pub struct WadLoader {
    pub path: String,
    pub archive: Option<Archive>,
}

impl MeshLoader {
    /// A loader that holds nothing.
    pub fn new() -> (loader: MeshLoader)
        ensures
            loader.path@.len() == 0,
            loader.mesh is None,
    {
        MeshLoader { path: String::new(), mesh: None }
    }

    /// Loads the mesh that the bytes of the file `path` hold.
    ///
    /// The path is kept in any case. The result says whether the bytes
    /// decoded; where they did not, the loader holds no mesh.
    pub fn load(&mut self, path: &str, bytes: &[u8]) -> (loaded: bool)
        ensures
            final(self).path@ == path@,
            loaded == loaded_mesh(path.spec_bytes(), bytes@) is Ok,
            loaded == final(self).mesh is Some,
            loaded ==> final(self).mesh->0@ == loaded_mesh(path.spec_bytes(), bytes@)->Ok_0
                && final(self).mesh->0.wf(),
    {
        self.path = path.to_owned();
        self.mesh = None;
        if bytes.len() == 0 {
            return false;
        }
        let format = match choose_mesh_format(FormatHint::from_file_name(path), bytes) {
            None => {
                return false;
            },
            Some(format) => format,
        };
        match decode_mesh(bytes, format) {
            Err(_) => false,
            Ok(mesh) => {
                self.mesh = Some(mesh);
                true
            },
        }
    }

    /// The path of the file that was loaded last.
    pub fn get_path(&self) -> (path: String)
        ensures
            path@ == self.path@,
    {
        self.path.clone()
    }

    /// The number of vertices of the mesh; 0 where none is held.
    pub fn get_vertex_count(&self) -> (count: i32)
        ensures
            count == match self.mesh {
                Some(mesh) => count_of(mesh@.vertices.len()),
                None => 0,
            },
    {
        match &self.mesh {
            Some(mesh) => clamp_count(mesh.vertices.len()),
            None => 0,
        }
    }

    /// The box of the mesh; the box at the origin where none is held.
    pub fn get_bounds(&self) -> (bounds: Bounds)
        ensures
            bounds == match self.mesh {
                Some(mesh) => mesh.bounds,
                None => no_bounds(),
            },
    {
        match &self.mesh {
            Some(mesh) => mesh.bounds,
            None => Bounds { min: Vector3 { x: 0, y: 0, z: 0 }, max: Vector3 { x: 0, y: 0, z: 0 } },
        }
    }
}

impl TextureLoader {
    /// A loader that holds nothing.
    pub fn new() -> (loader: TextureLoader)
        ensures
            loader.path@.len() == 0,
            loader.texture is None,
    {
        TextureLoader { path: String::new(), texture: None }
    }

    /// Loads the texture that the bytes of the file `path` hold.
    ///
    /// The path is kept in any case. The result says whether the bytes
    /// decoded; where they did not, the loader holds no texture.
    pub fn load(&mut self, path: &str, bytes: &[u8]) -> (loaded: bool)
        ensures
            final(self).path@ == path@,
            loaded == loaded_texture(path.spec_bytes(), bytes@) is Ok,
            loaded == final(self).texture is Some,
            loaded ==> final(self).texture->0@ == loaded_texture(path.spec_bytes(), bytes@)->Ok_0
                && final(self).texture->0.wf(),
    {
        self.path = path.to_owned();
        self.texture = None;
        if bytes.len() == 0 {
            return false;
        }
        let format = match choose_texture_format(FormatHint::from_file_name(path), bytes) {
            None => {
                return false;
            },
            Some(format) => format,
        };
        match decode_texture(bytes, format) {
            Err(_) => false,
            Ok(texture) => {
                self.texture = Some(texture);
                true
            },
        }
    }

    /// The path of the file that was loaded last.
    pub fn get_path(&self) -> (path: String)
        ensures
            path@ == self.path@,
    {
        self.path.clone()
    }

    /// The width of the texture; 0 where none is held.
    pub fn get_width(&self) -> (width: i32)
        ensures
            width == match self.texture {
                Some(texture) => count_of(texture.width as nat),
                None => 0,
            },
    {
        match &self.texture {
            Some(texture) => clamp_size(texture.width),
            None => 0,
        }
    }

    /// The height of the texture; 0 where none is held.
    pub fn get_height(&self) -> (height: i32)
        ensures
            height == match self.texture {
                Some(texture) => count_of(texture.height as nat),
                None => 0,
            },
    {
        match &self.texture {
            Some(texture) => clamp_size(texture.height),
            None => 0,
        }
    }

    /// The width and the height of the texture.
    pub fn get_dimensions(&self) -> (dimensions: (i32, i32))
        ensures
            dimensions.0 == match self.texture {
                Some(texture) => count_of(texture.width as nat),
                None => 0,
            },
            dimensions.1 == match self.texture {
                Some(texture) => count_of(texture.height as nat),
                None => 0,
            },
    {
        (self.get_width(), self.get_height())
    }
}

impl WadLoader {
    /// A loader that holds nothing.
    pub fn new() -> (loader: WadLoader)
        ensures
            loader.path@.len() == 0,
            loader.archive is None,
    {
        WadLoader { path: String::new(), archive: None }
    }

    /// Opens the archive that the bytes of the file `path` hold.
    ///
    /// The path is kept in any case. The result says whether the archive
    /// opened; where it did not, the loader holds none.
    pub fn load(&mut self, path: &str, bytes: Vec<u8>) -> (loaded: bool)
        ensures
            final(self).path@ == path@,
            loaded == archive_defect(bytes@) is None,
            loaded == final(self).archive is Some,
            loaded ==> final(self).archive->0.wf() && final(self).archive->0.entries@ == table_of(
                bytes@,
            ) && final(self).archive->0.data@ == bytes@,
    {
        self.path = path.to_owned();
        self.archive = None;
        match Archive::open(bytes) {
            Err(_) => false,
            Ok(archive) => {
                self.archive = Some(archive);
                true
            },
        }
    }

    /// The path of the file that was loaded last.
    pub fn get_path(&self) -> (path: String)
        ensures
            path@ == self.path@,
    {
        self.path.clone()
    }

    /// The number of entries of the archive; 0 where none is held.
    pub fn get_entry_count(&self) -> (count: i32)
        ensures
            count == match self.archive {
                Some(archive) => count_of(archive.entries@.len()),
                None => 0,
            },
    {
        match &self.archive {
            Some(archive) => clamp_count(archive.entries.len()),
            None => 0,
        }
    }
}

} // verus!

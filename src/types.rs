//! The model that a parse produces: an ordered list of named meshes.
use vstd::prelude::*;

verus! {

/// Relies on `std::io::Error` only as an opaque value carried by
/// `IqeError::IoError`.
#[verifier::external_type_specification]
#[verifier::external_body]
pub struct ExIoError(std::io::Error);

/// One mesh of a model.
///
/// Floating-point components are held as their IEEE-754 `f32` bit patterns
/// (`f32::to_bits`). Whichever of `positions`, `texture_coords` and
/// `normals` are present hold one entry per vertex, so they have equal
/// lengths.
#[derive(Debug)]
pub struct IqeMesh {
    /// The friendly name of the mesh.
    pub name: String,
    /// The vertex positions (x, y, z, w), if any.
    pub positions: Option<Vec<[u32; 4]>>,
    /// The texture coordinates (u, v), if any.
    pub texture_coords: Option<Vec<[u32; 2]>>,
    /// The normals (x, y, z), if any.
    pub normals: Option<Vec<[u32; 3]>>,
    /// The faces, each three zero-based indices into the vertex buffers.
    pub faces: Option<Vec<[usize; 3]>>,
}

/// What a mesh holds, as mathematical values.
pub struct MeshView {
    pub name: Seq<char>,
    pub positions: Option<Seq<[u32; 4]>>,
    pub texture_coords: Option<Seq<[u32; 2]>>,
    pub normals: Option<Seq<[u32; 3]>>,
    pub faces: Option<Seq<[usize; 3]>>,
}

/// The contents of an optional buffer.
pub open spec fn opt_seq<T>(v: Option<Vec<T>>) -> Option<Seq<T>> {
    match v {
        Some(v) => Some(v@),
        None => None,
    }
}

/// The length of an optional buffer.
pub open spec fn opt_len<T>(v: Option<Seq<T>>) -> Option<nat> {
    match v {
        Some(v) => Some(v.len()),
        None => None,
    }
}

/// Two buffer lengths agree where both buffers are present.
pub open spec fn lens_agree(a: Option<nat>, b: Option<nat>) -> bool {
    a is Some && b is Some ==> a == b
}

impl MeshView {
    /// A mesh with the given name and no buffers.
    pub open spec fn bare(name: Seq<char>) -> MeshView {
        MeshView {
            name,
            positions: None,
            texture_coords: None,
            normals: None,
            faces: None,
        }
    }

    /// The vertex buffers that are present have one entry per vertex.
    pub open spec fn wf(self) -> bool {
        &&& lens_agree(opt_len(self.positions), opt_len(self.texture_coords))
        &&& lens_agree(opt_len(self.positions), opt_len(self.normals))
        &&& lens_agree(opt_len(self.texture_coords), opt_len(self.normals))
    }
}

impl View for IqeMesh {
    type V = MeshView;

    open spec fn view(&self) -> MeshView {
        MeshView {
            name: self.name@,
            positions: opt_seq(self.positions),
            texture_coords: opt_seq(self.texture_coords),
            normals: opt_seq(self.normals),
            faces: opt_seq(self.faces),
        }
    }
}

impl IqeMesh {
    /// A new mesh with the given name and no buffers.
    pub fn new(name: &str) -> (r: IqeMesh)
        ensures
            r@ == MeshView::bare(name@),
            r@.wf(),
    {
        IqeMesh {
            name: name.to_owned(),
            positions: None,
            texture_coords: None,
            normals: None,
            faces: None,
        }
    }
}

/// The result of loading: zero or more meshes, in the order in which they
/// were declared.
#[derive(Debug)]
pub struct IqeModel {
    pub meshes: Vec<IqeMesh>,
}

impl View for IqeModel {
    type V = Seq<MeshView>;

    open spec fn view(&self) -> Seq<MeshView> {
        self.meshes@.map_values(|m: IqeMesh| m@)
    }
}

impl IqeModel {
    /// Every mesh keeps its vertex buffers in step.
    pub open spec fn wf(&self) -> bool {
        forall|i: int| 0 <= i < self@.len() ==> (#[trigger] self@[i]).wf()
    }

    /// A new model with no meshes.
    pub fn new() -> (r: IqeModel)
        ensures
            r@ == Seq::<MeshView>::empty(),
            r.wf(),
    {
        let r = IqeModel { meshes: Vec::new() };
        assert(r@ =~= Seq::<MeshView>::empty());
        r
    }
}

/// Why loading failed.
#[derive(Debug)]
pub enum IqeError {
    /// The input held no line at all.
    Empty,
    /// The first line does not start with the required header.
    BadHeader,
    /// Retrieving a line failed. Text already in memory never gives it; a
    /// caller that reads the text from a source that can fail reports that
    /// failure with it.
    IoError(std::io::Error),
    /// A known command was malformed. No command that is read today can be
    /// malformed: unknown commands are skipped, not rejected.
    InvalidData,
    /// A command's grammar failed on a line that it is built to accept.
    InternalParserError,
}

} // verus!

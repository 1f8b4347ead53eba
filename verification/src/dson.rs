//! The integer and text records of the DSON scene format (`.duf`/`.dsf`)
//! that carry no floating-point data, and the loader's file extensions.
use vstd::prelude::*;

verus! {

/// Who made an asset.
#[derive(Clone, Debug)]
pub struct Contributor {
    pub author: String,
    pub email: Option<String>,
    pub website: Option<String>,
}

/// `polygon_mesh` or `subdivision_surface`.
#[derive(Clone, Copy, Debug, PartialEq, Eq, Structural)]
pub enum GeometryType {
    PolygonMesh,
    SubdivisionSurface,
}

/// `no_interpolation`, `edges_and_corners` or `edges_only`.
#[derive(Clone, Copy, Debug, PartialEq, Eq, Structural)]
pub enum EdgeInterpolationMode {
    NoInterpolation,
    EdgesAndCorners,
    EdgesOnly,
}

/// A named region of a geometry, with the faces it maps and its
/// sub-regions.
#[derive(Debug)]
pub struct Region {
    pub id: String,
    pub label: Option<String>,
    pub display_hint: Option<String>,
    pub map: Option<IntArray>,
    pub children: Option<Vec<Region>>,
}

/// How a geometry is grafted onto another: the vertex pairs it welds and
/// the polygons it hides.
#[derive(Clone, Debug)]
pub struct Graft {
    pub vertex_count: Option<u32>,
    pub poly_count: Option<u32>,
    pub vertex_pairs: Option<Int2Array>,
    pub hidden_polys: Option<IntArray>,
}

/// `none`, `full`, `primary` or `secondary`.
#[derive(Clone, Copy, Debug, PartialEq, Eq, Structural)]
pub enum RotationMode {
    /// `none`.
    NoRotation,
    Full,
    Primary,
    Secondary,
}

/// `none`, `primary`, `secondary` or `tertiary`.
#[derive(Clone, Copy, Debug, PartialEq, Eq, Structural)]
pub enum ScaleMode {
    /// `none`.
    NoScale,
    Primary,
    Secondary,
    Tertiary,
}

/// `node`, `bone`, `figure`, `camera` or `light`.
#[derive(Clone, Copy, Debug, PartialEq, Eq, Structural)]
pub enum NodeType {
    Node,
    Bone,
    Figure,
    Camera,
    Light,
}

/// The order in which a node's rotation axes apply.
#[derive(Clone, Copy, Debug, PartialEq, Eq, Structural)]
pub enum RotationOrder {
    XYZ,
    YZX,
    ZYX,
    ZXY,
    XZY,
    YXZ,
}

/// `none`, `shadow_map` or `raytraced`.
#[derive(Clone, Copy, Debug, PartialEq, Eq, Structural)]
pub enum ShadowType {
    /// `none`.
    NoShadow,
    ShadowMap,
    Raytraced,
}

/// Pairs of (face group name, node name).
#[derive(Clone, Debug)]
pub struct NamedStringMap {
    pub id: String,
    pub mappings: Vec<[String; 2]>,
}

/// The value type of a channel.
#[derive(Clone, Copy, Debug, PartialEq, Eq, Structural)]
pub enum ChannelType {
    Alias,
    Bool,
    Color,
    Enum,
    Float,
    FloatColor,
    Image,
    Int,
    String,
}

/// `multiply` or `sum`.
#[derive(Clone, Copy, Debug, PartialEq, Eq, Structural)]
pub enum FormulaStage {
    Multiply,
    Sum,
}

/// A counted list of strings.
#[derive(Clone, Debug)]
pub struct StringArray {
    pub count: u32,
    pub values: Vec<String>,
}

/// A counted list of integers.
#[derive(Clone, Debug)]
pub struct IntArray {
    pub count: u32,
    pub values: Vec<u32>,
}

/// A counted list of integer pairs.
#[derive(Clone, Debug)]
pub struct Int2Array {
    pub count: u32,
    pub values: Vec<[u32; 2]>,
}

/// Polygons, each `[group, material group, vertex indices...]`.
#[derive(Clone, Debug)]
pub struct Polylist {
    pub count: u32,
    pub values: Vec<Vec<u32>>,
}

/// Polylines (strands), each `[group, material group, vertex indices...]`.
#[derive(Clone, Debug)]
pub struct PolylineList {
    pub count: u32,
    pub segment_count: Option<u32>,
    pub values: Vec<Vec<u32>>,
}

/// Loads DSON scene files.
#[derive(Clone, Copy, Debug, Default)]
pub struct DsonAssetLoader;

impl DsonAssetLoader {
    /// The file extensions this loader claims: `duf` and `dsf`.
    pub fn extensions(&self) -> (exts: Vec<&'static str>)
        ensures
            exts@.len() == 2,
            exts@[0]@ == "duf"@,
            exts@[1]@ == "dsf"@,
    {
        let mut exts: Vec<&'static str> = Vec::new();
        exts.push("duf");
        exts.push("dsf");
        exts
    }
}

} // verus!

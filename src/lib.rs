//! Core of a 3D editor for 64x64 player skin textures: the body-part taxonomy,
//! the texture atlas layout, cuboid mesh generation, per-cell coloring, and the
//! undoable edit commands that keep mesh and texture in step.

pub mod taxonomy;
pub mod color;
pub mod atlas;
pub mod geometry;
pub mod codec;
pub mod mesh;
pub mod cell;
pub mod remap;
pub mod renderer;
pub mod command;
pub mod history;
pub mod tools;

pub use taxonomy::{BodyPart, CubeSide, ModelType, ModelObjectType, Side, SkinDialogResponse, guess_model_type};
pub use color::Color;
pub use atlas::{Bitmap, ColorMap, Dimensions, Point, SideMeta, SkinParser, TextureLoadError};
pub use geometry::{Cuboid, Position, Vertex, generate_indexes};
pub use mesh::ModelObject;
pub use cell::ModelCell;
pub use remap::{classic_to_slim_arm, slim_to_classic_arm};
pub use renderer::{Hover, PartToggles, Renderer};
pub use command::Command;
pub use history::DrawingHistory;
pub use tools::Tool;

pub mod assets;
pub mod conversions;
pub mod mesh;
pub mod model;
pub mod scene;
pub mod shader;

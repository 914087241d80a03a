pub mod buffer;
pub mod engine;
pub mod grid;
pub mod numeric;
pub mod openset;
pub mod pixel;
pub mod rng;
pub mod walk;

pub use buffer::RecencyBuffer;
pub use engine::Config;
pub use engine::GenState;
pub use engine::generate;
pub use engine::growth_width;
pub use engine::seed_width;
pub use grid::Grid;
pub use numeric::isqrt;
pub use openset::RandomRemovalSet;
pub use pixel::Color;
pub use pixel::Loc;
pub use pixel::Pixel;
pub use rng::new_rng;
pub use walk::WalkOutcome;
pub use walk::boundary_walk;

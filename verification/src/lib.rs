pub mod grid;
pub mod pair;
pub mod shared;
pub mod stepper;

pub use grid::CellState;
pub use grid::ConwayState;
pub use pair::GenerationPair;
pub use shared::SharedSim;

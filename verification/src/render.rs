//! The rendering core: buffer registries, their pool, the pipeline cache,
//! and the per-frame orchestrator.

pub mod conveyor;
pub mod conveyor_manager;
pub mod gpu;
pub mod pipeline_manager;
pub mod renderer;

pub use conveyor_manager::ConveyorManager;
pub use conveyor::Conveyor;
pub use pipeline_manager::PipelineManager;
pub use renderer::Renderer;
pub use conveyor::ConveyorError;
pub use conveyor::GadgetDescriptor;
pub use conveyor::GadgetIndex;

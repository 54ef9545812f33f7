//! A heterogeneous-compute buffer library: tensor-like containers that may
//! hold byte-identical copies on several compute devices, synchronized on
//! demand, together with a NumPy-style shape-broadcasting engine that lets
//! elementwise binary reduction kernels run over operands of differing shapes
//! without materializing the expanded result.

pub mod broadcast;
pub mod buffer;
pub mod dot;
pub mod hardware;
pub mod lock;
pub mod memory;
pub mod native;
pub mod operation;
pub mod shape;

pub use broadcast::{try_new_broadcast, DenseBroadcastIter};
pub use buffer::{Buffer, BufferDevice};
pub use dot::Dot;
pub use hardware::Hardware;
pub use memory::Memory;
pub use operation::DotOperation;
pub use shape::{compatible, target_shape, BroadcastDimension};

//! Parallel dense matrix multiplication over a fixed worker pool, with the
//! supporting pieces: owned row/column views, a dot-product engine, task and
//! reply records, and two counter stores used by the surrounding programs.
pub mod cmap;
pub mod matrix;
pub mod metric;
pub mod text;
pub mod vector;

pub use cmap::CmapMetrics;
pub use matrix::multiply;
pub use matrix::Matrix;
pub use matrix::MultiplyError;
pub use matrix::Operand;
pub use matrix::Reply;
pub use matrix::Task;
pub use metric::Metrics;
pub use metric::MetricsError;
pub use vector::dot_product;
pub use vector::dot_product_vec;
pub use vector::DotProductError;
pub use vector::Vector;

//! Hook points for runtime level tracing. A hook does nothing by itself: it marks the moment at
//! which it is called, so that tools like `perf` or `dtrace` can attach to it.

pub mod rt;
pub mod task;

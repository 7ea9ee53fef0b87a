pub mod buffer;
pub mod frame;
pub mod glue;
pub mod pipeline;
pub mod render_pass;
pub mod swap_buffer;

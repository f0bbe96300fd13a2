pub mod hdl;

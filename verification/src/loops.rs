pub mod gotd_loop;
pub mod status;

pub mod cgroup_utils;
pub mod header_utils;
pub mod json_extract;

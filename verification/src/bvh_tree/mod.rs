pub mod bvh_node;
pub mod nearest;
